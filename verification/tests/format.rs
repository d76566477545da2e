use lumol_energy::fx;
use lumol_energy::out::custom::{parse_index, FormatArgs};
use lumol_energy::utils::{parse_fx, parse_usize};

#[test]
fn parsing_index() {
    assert_eq!(parse_index("a[6]"), ("a", 6));

    assert_eq!(parse_index("a"), ("a", 0));
    assert_eq!(parse_index("a][6"), ("a][6", 0));
    assert_eq!(parse_index("a[6][2]"), ("a[6][2]", 0));
    assert_eq!(parse_index("a[6]2]"), ("a[6]2]", 0));
    assert_eq!(parse_index("a[6][2"), ("a[6][2", 0));
    assert_eq!(parse_index("a[b]"), ("a[b]", 0));
}

#[test]
fn parsing_index_more() {
    assert_eq!(parse_index("vx[12]"), ("vx", 12));
    assert_eq!(parse_index("x[]"), ("x[]", 0));
    assert_eq!(parse_index("x[99999999999999999999999999]"), ("x[99999999999999999999999999]", 0));
}

#[test]
fn format_args_parsing() {
    assert!(FormatArgs::new("one {test} two {5 } three!").is_ok());

    assert!(FormatArgs::new("{3 + 4} {").is_err());
    assert!(FormatArgs::new("{3 + 4} }").is_err());
    assert!(FormatArgs::new("{3 + { 4}").is_err());
    assert!(FormatArgs::new("{3 + {} }").is_err());
}

#[test]
fn format_args_segments() {
    let f = FormatArgs::new("p {3 * 5} t {2 + 2} tail").unwrap();
    assert_eq!(f.args.len(), 2);
    assert_eq!(&f.template[f.args[0].expr_start..f.args[0].expr_end], "3 * 5");
    assert_eq!(&f.template[f.args[1].expr_start..f.args[1].expr_end], "2 + 2");
    assert_eq!(&f.template[f.tail_start..], " tail");
    // the recorded expressions evaluate with the expression engine
    assert_eq!(f.args[0].expr.eval(None), Ok(15.0));
    assert_eq!(f.args[1].expr.eval(None), Ok(4.0));
}

#[test]
fn format_args_bad_expression() {
    assert!(FormatArgs::new("{3eff + 5}").is_err());
}

#[test]
fn parse_decimal_tokens() {
    assert_eq!(parse_usize("42"), Some(42));
    assert_eq!(parse_usize(""), None);
    assert_eq!(parse_usize("4x2"), None);
    assert_eq!(parse_usize("99999999999999999999999999999"), None);

    assert_eq!(parse_fx("1"), Some(fx::of_int(1)));
    assert_eq!(parse_fx("-3"), Some(fx::of_int(-3)));
    assert_eq!(parse_fx("1.5"), Some(fx::of_int(1) + fx::of_int(1) / 2));
    assert_eq!(parse_fx("-0.25"), Some(-fx::of_int(1) / 4));
    assert_eq!(parse_fx("2.125"), Some(fx::of_int(17) / 8));
    assert_eq!(parse_fx(""), None);
    assert_eq!(parse_fx("."), None);
    assert_eq!(parse_fx(".5"), None);
    assert_eq!(parse_fx("1.2.3"), None);
    assert_eq!(parse_fx("abc"), None);
    assert_eq!(parse_fx("99999999"), None);
    // truncation toward zero at the fixed-point resolution
    let v = parse_fx("0.1").unwrap();
    assert!((v as f64 / 1099511627776.0 - 0.1).abs() < 1e-11);
}

#[test]
fn bare_function_names_are_rejected_not_panicking() {
    // the expression engine aborts the process on a bare function-name
    // token; the template parser screens these out and reports an error
    assert!(FormatArgs::new("{sqrt}").is_err());
    assert!(FormatArgs::new("{(sqrt)}").is_err());
    assert!(FormatArgs::new("{sin + 1}").is_err());
    assert!(FormatArgs::new("{2 * sqrt(9)}").is_ok());
    assert!(FormatArgs::new("{asinh(1) + cos(0)}").is_ok());
    // names embedded in longer variable tokens are ordinary variables
    assert!(FormatArgs::new("{absolute_x + 1}").is_ok());
    let f = FormatArgs::new("{2 * sqrt(9)}").unwrap();
    assert_eq!(f.args[0].expr.eval(None), Ok(6.0));
}
