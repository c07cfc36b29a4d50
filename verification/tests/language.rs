//! End-to-end tests of the language pipeline through the public session API.
use matika::error::Error;
use matika::num::Num;
use matika::value::Value;
use matika::Matika;

fn eval_ok(session: &mut Matika<matika::plotter::NoPlotter>, text: &str) -> Value {
    session.eval(text.to_string()).expect("evaluation should succeed")
}

fn eval_err(session: &mut Matika<matika::plotter::NoPlotter>, text: &str) -> Error {
    match session.eval(text.to_string()) {
        Ok(v) => panic!("expected an error, got {:?}", v.render()),
        Err(e) => e,
    }
}

fn as_number(v: &Value) -> f64 {
    match v {
        Value::Number(n) => f64::from_bits(n.bits),
        other => panic!("expected a number, got {:?}", other.render()),
    }
}

#[test]
fn precedence_multiplication_before_addition() {
    let mut m = Matika::new();
    let v = eval_ok(&mut m, "2+3*4");
    assert_eq!(as_number(&v), 14.0);
}

#[test]
fn power_chains_left_associatively() {
    let mut m = Matika::new();
    let v = eval_ok(&mut m, "2^3^2");
    assert_eq!(as_number(&v), 64.0);
}

#[test]
fn implicit_multiplication_of_literal_by_group() {
    let mut m = Matika::new();
    let v = eval_ok(&mut m, "3(4)+1");
    assert_eq!(as_number(&v), 13.0);
}

#[test]
fn implicit_multiplication_of_literal_by_identifier() {
    let mut m = Matika::new();
    eval_ok(&mut m, "x=5");
    let v = eval_ok(&mut m, "2x");
    assert_eq!(as_number(&v), 10.0);
}

#[test]
fn bindings_persist_across_calls() {
    let mut m = Matika::new();
    eval_ok(&mut m, "x=5");
    let v = eval_ok(&mut m, "x+1");
    assert_eq!(as_number(&v), 6.0);
}

#[test]
fn function_declaration_and_call() {
    let mut m = Matika::new();
    eval_ok(&mut m, "f(x)=x^2");
    let v = eval_ok(&mut m, "f(3)");
    assert_eq!(as_number(&v), 9.0);
}

#[test]
fn factors_of_twelve() {
    let mut m = Matika::new();
    let v = eval_ok(&mut m, "factors(12)");
    match v {
        Value::List(ns) => {
            let got: Vec<f64> = ns.iter().map(|n| f64::from_bits(n.bits)).collect();
            assert_eq!(got, vec![1.0, 2.0, 3.0, 4.0, 6.0, 12.0]);
        },
        other => panic!("expected a list, got {:?}", other.render()),
    }
}

#[test]
fn factors_of_zero_is_empty() {
    let mut m = Matika::new();
    let v = eval_ok(&mut m, "factors(0)");
    match v {
        Value::List(ns) => assert!(ns.is_empty()),
        other => panic!("expected a list, got {:?}", other.render()),
    }
}

#[test]
fn unbound_identifier_becomes_placeholder() {
    let mut m = Matika::new();
    let v = eval_ok(&mut m, "y");
    match &v {
        Value::Unbound(name) => assert_eq!(name, "y"),
        other => panic!("expected a placeholder, got {:?}", other.render()),
    }
    assert_eq!(v.render(), "y");
    let again = eval_ok(&mut m, "y");
    match again {
        Value::Unbound(name) => assert_eq!(name, "y"),
        other => panic!("expected the same placeholder, got {:?}", other.render()),
    }
}

#[test]
fn arity_mismatch_is_an_error_and_keeps_bindings() {
    let mut m = Matika::new();
    eval_ok(&mut m, "x=5");
    assert_eq!(eval_err(&mut m, "sin(1,2)"), Error::ArityError);
    let v = eval_ok(&mut m, "x");
    assert_eq!(as_number(&v), 5.0);
}

#[test]
fn evaluation_is_deterministic_across_fresh_sessions() {
    fn run() -> Vec<f64> {
        let mut m = Matika::new();
        ["g(x)=x^2+1", "a=g(3)", "a*2+g(a)"]
            .iter()
            .map(|line| as_number(&eval_ok(&mut m, line)))
            .collect()
    }
    assert_eq!(run(), run());
}

#[test]
fn pi_value() {
    let mut m = Matika::new();
    let v = eval_ok(&mut m, "pi()");
    assert_eq!(as_number(&v).to_bits(), std::f64::consts::PI.to_bits());
}

#[test]
fn sine_of_zero() {
    let mut m = Matika::new();
    let v = eval_ok(&mut m, "sin(0)");
    assert_eq!(as_number(&v), 0.0);
}

#[test]
fn sine_of_one_is_accurate() {
    let mut m = Matika::new();
    let v = eval_ok(&mut m, "sin(1)");
    assert!((as_number(&v) - 1.0_f64.sin()).abs() < 1e-12);
}

#[test]
fn division_and_unary_minus() {
    let mut m = Matika::new();
    assert_eq!(as_number(&eval_ok(&mut m, "1/2")), 0.5);
    assert_eq!(as_number(&eval_ok(&mut m, "-3+5")), 2.0);
    assert_eq!(as_number(&eval_ok(&mut m, "--4")), 4.0);
}

#[test]
fn subtraction_is_left_associative() {
    let mut m = Matika::new();
    assert_eq!(as_number(&eval_ok(&mut m, "10-4-3")), 3.0);
}

#[test]
fn builtin_on_placeholder_is_a_type_error() {
    let mut m = Matika::new();
    assert_eq!(eval_err(&mut m, "sin(y)"), Error::TypeError);
}

#[test]
fn fractional_literals() {
    let mut m = Matika::new();
    assert_eq!(as_number(&eval_ok(&mut m, "1.5+0.25")), 1.75);
}

#[test]
fn fractional_power() {
    let mut m = Matika::new();
    let v = eval_ok(&mut m, "2^0.5");
    assert!((as_number(&v) - 2.0_f64.sqrt()).abs() < 1e-12);
}

#[test]
fn comments_and_whitespace_are_skipped() {
    let mut m = Matika::new();
    let v = eval_ok(&mut m, "1 +\t1 // trailing words\n+ 3");
    assert_eq!(as_number(&v), 5.0);
}

#[test]
fn unexpected_character_is_a_lex_error() {
    let mut m = Matika::new();
    assert_eq!(eval_err(&mut m, "1 @ 2"), Error::LexError);
}

#[test]
fn malformed_inputs_are_parse_errors() {
    let mut m = Matika::new();
    assert_eq!(eval_err(&mut m, "("), Error::ParseError);
    assert_eq!(eval_err(&mut m, "(1+2"), Error::ParseError);
    assert_eq!(eval_err(&mut m, "3(4,5)"), Error::ParseError);
    assert_eq!(eval_err(&mut m, "1=2"), Error::ParseError);
    assert_eq!(eval_err(&mut m, "print"), Error::ParseError);
    assert_eq!(eval_err(&mut m, "f(1)=2"), Error::ParseError);
}

#[test]
fn arithmetic_on_non_numbers_is_a_type_error() {
    let mut m = Matika::new();
    assert_eq!(eval_err(&mut m, "1+sin"), Error::TypeError);
    eval_ok(&mut m, "x=5");
    assert_eq!(eval_err(&mut m, "x(1)"), Error::TypeError);
    assert_eq!(eval_err(&mut m, "plot(3)"), Error::TypeError);
}

#[test]
fn unbounded_recursion_is_a_depth_error() {
    let mut m = Matika::new();
    eval_ok(&mut m, "g(x)=g(x)");
    assert_eq!(eval_err(&mut m, "g(1)"), Error::DepthError);
}

#[test]
fn failing_statement_keeps_earlier_bindings_of_same_call() {
    let mut m = Matika::new();
    assert_eq!(eval_err(&mut m, "a=7 sin(1,2) a=9"), Error::ArityError);
    let v = eval_ok(&mut m, "a");
    assert_eq!(as_number(&v), 7.0);
}

#[test]
fn print_emits_rendered_value() {
    let mut m = Matika::new();
    let v = eval_ok(&mut m, "print 1+1");
    assert_eq!(as_number(&v), 0.0);
    let out = m.take_output();
    assert_eq!(out, vec!["2".to_string()]);
    assert!(m.take_output().is_empty());
}

#[test]
fn callable_renders_with_its_name() {
    let mut m = Matika::new();
    eval_ok(&mut m, "f(x)=x");
    let v = eval_ok(&mut m, "f");
    assert_eq!(v.render(), "<fnc:f>");
    let s = eval_ok(&mut m, "sin");
    assert_eq!(s.render(), "<fnc:sin>");
}

#[test]
fn list_renders_with_brackets() {
    let mut m = Matika::new();
    let v = eval_ok(&mut m, "factors(4)");
    assert_eq!(v.render(), "[1, 2, 4]");
}

#[test]
fn empty_input_yields_zero() {
    let mut m = Matika::new();
    let v = eval_ok(&mut m, "");
    assert_eq!(as_number(&v), 0.0);
    assert_eq!(as_number(&eval_ok(&mut m, "// only a comment")), 0.0);
}

#[test]
fn last_statement_value_is_returned() {
    let mut m = Matika::new();
    let v = eval_ok(&mut m, "1+1 2+2 3+3");
    assert_eq!(as_number(&v), 6.0);
}

#[test]
fn call_time_scoping_captures_callers_scope() {
    let mut m = Matika::new();
    eval_ok(&mut m, "f(x)=x+b");
    eval_ok(&mut m, "b=10");
    let v = eval_ok(&mut m, "f(1)");
    assert_eq!(as_number(&v), 11.0);
    eval_ok(&mut m, "b=20");
    let v2 = eval_ok(&mut m, "f(1)");
    assert_eq!(as_number(&v2), 21.0);
}

#[test]
fn parameters_shadow_and_are_discarded() {
    let mut m = Matika::new();
    eval_ok(&mut m, "x=1");
    eval_ok(&mut m, "f(x)=x*10");
    assert_eq!(as_number(&eval_ok(&mut m, "f(7)")), 70.0);
    assert_eq!(as_number(&eval_ok(&mut m, "x")), 1.0);
}

struct Recorder {
    calls: std::rc::Rc<std::cell::RefCell<Vec<Vec<(f64, f64)>>>>,
}

impl matika::plotter::Plotter for Recorder {
    fn plot(&self, points: &Vec<(Num, Num)>) -> Value {
        let decoded: Vec<(f64, f64)> = points
            .iter()
            .map(|(x, y)| (f64::from_bits(x.bits), f64::from_bits(y.bits)))
            .collect();
        self.calls.borrow_mut().push(decoded);
        Value::Number(Num { bits: 0 })
    }
}

#[test]
fn plot_samples_twenty_ascending_abscissas() {
    let calls = std::rc::Rc::new(std::cell::RefCell::new(Vec::new()));
    let recorder = Recorder { calls: calls.clone() };
    let mut m = Matika::new().with_plotter(recorder);
    m.eval("f(x)=x*2".to_string()).expect("declaration should succeed");
    let v = m.eval("plot(f)".to_string()).expect("plot should succeed");
    match v {
        Value::Number(n) => assert_eq!(f64::from_bits(n.bits), 0.0),
        other => panic!("expected a number, got {:?}", other.render()),
    }
    let seen = calls.borrow();
    assert_eq!(seen.len(), 1);
    let points = &seen[0];
    assert_eq!(points.len(), 20);
    for (k, (x, y)) in points.iter().enumerate() {
        assert_eq!(*x, k as f64 - 10.0);
        assert_eq!(*y, 2.0 * (k as f64 - 10.0));
    }
}
