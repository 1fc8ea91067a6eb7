use metalens::{parse_formula, FormulaError, FormulaExpr, FormulaOp, FormulaTerm};

#[test]
fn test_basic_parser() {
    let parsed = parse_formula("input.port >= 8080").unwrap();

    assert_eq!(
        parsed,
        FormulaExpr::Binary {
            lhs: Box::new(FormulaExpr::Term(FormulaTerm::Property(
                "input".to_string(),
                "port".to_string()
            ))),
            rhs: Box::new(FormulaExpr::Term(FormulaTerm::Number(8080))),
            binary_op: FormulaOp::GtEq
        }
    );

    let parsed = parse_formula("input.process_name = \"bash\"").unwrap();

    assert_eq!(
        parsed,
        FormulaExpr::Binary {
            lhs: Box::new(FormulaExpr::Term(FormulaTerm::Property(
                "input".to_string(),
                "process_name".to_string()
            ))),
            rhs: Box::new(FormulaExpr::Term(FormulaTerm::String("bash".to_string()))),
            binary_op: FormulaOp::Eq
        }
    );

    let parsed = parse_formula("count(input)").unwrap();

    assert_eq!(
        parsed,
        FormulaExpr::Term(FormulaTerm::CountCall("input".to_string(),))
    );
}

#[test]
fn empty_input_fails_with_empty_error() {
    let r = parse_formula("");
    assert!(matches!(r, Err(FormulaError::Empty)));
}

#[test]
fn blank_only_input_is_a_parse_error_carrying_the_input() {
    let r = parse_formula("   ");
    match r {
        Err(FormulaError::ParseError(text)) => assert_eq!(text, "   "),
        other => panic!("expected a parse error, got {:?}", other),
    }
}

#[test]
fn number_literal_parses() {
    assert_eq!(
        parse_formula("42").unwrap(),
        FormulaExpr::Term(FormulaTerm::Number(42))
    );
}

#[test]
fn string_literal_parses() {
    assert_eq!(
        parse_formula("\"hello\"").unwrap(),
        FormulaExpr::Term(FormulaTerm::String("hello".to_string()))
    );
}

#[test]
fn bool_literals_parse() {
    assert_eq!(
        parse_formula("true").unwrap(),
        FormulaExpr::Term(FormulaTerm::Boolean(true))
    );
    assert_eq!(
        parse_formula("false").unwrap(),
        FormulaExpr::Term(FormulaTerm::Boolean(false))
    );
}

#[test]
fn parenthesized_expression_parses_to_the_inner_expression() {
    assert_eq!(
        parse_formula("(input.port >= 8080)").unwrap(),
        parse_formula("input.port >= 8080").unwrap()
    );
}

#[test]
fn binary_chain_is_right_associative() {
    assert_eq!(
        parse_formula("1 + 2 + 3").unwrap(),
        FormulaExpr::Binary {
            lhs: Box::new(FormulaExpr::Term(FormulaTerm::Number(1))),
            rhs: Box::new(FormulaExpr::Binary {
                lhs: Box::new(FormulaExpr::Term(FormulaTerm::Number(2))),
                rhs: Box::new(FormulaExpr::Term(FormulaTerm::Number(3))),
                binary_op: FormulaOp::Add,
            }),
            binary_op: FormulaOp::Add,
        }
    );
}

#[test]
fn every_operator_parses() {
    let cases = [
        ("input.x < 1", FormulaOp::Lt),
        ("input.x = 1", FormulaOp::Eq),
        ("input.x != 1", FormulaOp::NotEq),
        ("input.x <= 1", FormulaOp::LtEq),
        ("input.x >= 1", FormulaOp::GtEq),
        ("input.x > 1", FormulaOp::Gt),
        ("input.x + 1", FormulaOp::Add),
        ("input.x && true", FormulaOp::And),
        ("input.x || true", FormulaOp::Or),
    ];
    for (text, op) in cases {
        match parse_formula(text).unwrap() {
            FormulaExpr::Binary { binary_op, .. } => assert_eq!(binary_op, op),
            other => panic!("expected a binary expression for {:?}, got {:?}", text, other),
        }
    }
}

#[test]
fn oversized_number_is_a_parse_error() {
    let r = parse_formula("99999999999999999999999999");
    assert!(matches!(r, Err(FormulaError::ParseError(_))));
}

#[test]
fn number_at_the_limit_parses() {
    assert_eq!(
        parse_formula("18446744073709551615").unwrap(),
        FormulaExpr::Term(FormulaTerm::Number(u64::MAX))
    );
    assert!(matches!(
        parse_formula("18446744073709551616"),
        Err(FormulaError::ParseError(_))
    ));
}

#[test]
fn trailing_text_is_a_parse_error() {
    assert!(matches!(
        parse_formula("count(input) extra"),
        Err(FormulaError::ParseError(_))
    ));
}

#[test]
fn unterminated_string_is_a_parse_error() {
    assert!(matches!(
        parse_formula("\"oops"),
        Err(FormulaError::ParseError(_))
    ));
}

#[test]
fn lone_ampersand_is_a_parse_error() {
    assert!(matches!(
        parse_formula("input.x & 1"),
        Err(FormulaError::ParseError(_))
    ));
}

#[test]
fn term_and_str_value_accessors() {
    let e = parse_formula("\"bash\"").unwrap();
    let term = e.term().expect("a literal is a term");
    assert_eq!(term.str_value(), Some("bash"));

    let n = parse_formula("7").unwrap();
    assert_eq!(n.term().unwrap().str_value(), None);

    let b = parse_formula("input.a = 1").unwrap();
    assert!(b.term().is_none());
}
