use g_forms::num::{num_eq_exec, num_le_exec, num_lt_exec, parse_number, Number};

/// The parser accepts the canonical decimal grammar.
#[test]
fn parse_accepts_canonical_decimals() {
    let n = parse_number("0").unwrap();
    assert_eq!((n.neg, n.mant, n.scale), (false, 0, 0));

    let n = parse_number("3.14").unwrap();
    assert_eq!((n.neg, n.mant, n.scale), (false, 314, 2));

    let n = parse_number("-12.5").unwrap();
    assert_eq!((n.neg, n.mant, n.scale), (true, 125, 1));

    let n = parse_number("100").unwrap();
    assert_eq!((n.neg, n.mant, n.scale), (false, 100, 0));

    // nineteen digits still fit
    let n = parse_number("1234567890123456789").unwrap();
    assert_eq!(n.mant, 1234567890123456789);

    // a negative zero is normalized to plain zero
    let n = parse_number("-0").unwrap();
    assert_eq!((n.neg, n.mant, n.scale), (false, 0, 0));

    // trailing fraction zeros are kept
    let n = parse_number("2.50").unwrap();
    assert_eq!((n.neg, n.mant, n.scale), (false, 250, 2));
}

/// The parser rejects what is outside the grammar or its bounds.
#[test]
fn parse_rejects_malformed() {
    for s in [
        "", "-", ".", "3.", ".5", "1.2.3", "--1", "+1", "007", "01.5", "a", "1a", "1 ",
        " 1", "1e3", "12345678901234567890", "0.1234567890",
    ] {
        assert!(parse_number(s).is_none(), "expected rejection of {:?}", s);
    }
}

/// Rendering is the inverse of parsing on shortest-form strings.
#[test]
fn render_round_trips() {
    for s in ["0", "3.14", "-12.5", "100", "0.001", "-0.5", "9", "10", "3.0"] {
        let n = parse_number(s).unwrap();
        assert_eq!(n.render(), s);
    }
    assert_eq!(Number::from_i64(-5).render(), "-5");
    assert_eq!(Number::from_i64(0).render(), "0");
    assert_eq!(Number::from_i64(i64::MIN).render(), "-9223372036854775808");
}

/// Rendering drops trailing zero fraction digits, down to one digit
/// for a value written with a fraction at all.
#[test]
fn render_is_shortest_exact() {
    for (written, shortest) in [
        ("2.50", "2.5"),
        ("3.00", "3.0"),
        ("0.100", "0.1"),
        ("-2.50", "-2.5"),
        ("10.000000000", "10.0"),
    ] {
        assert_eq!(parse_number(written).unwrap().render(), shortest);
    }
}

/// Comparisons are exact across scales.
#[test]
fn comparisons_are_exact() {
    let a = parse_number("2.5").unwrap();
    let b = parse_number("2.50").unwrap();
    let c = parse_number("2.51").unwrap();
    let d = parse_number("-3").unwrap();
    assert!(num_eq_exec(&a, &b));
    assert!(!num_eq_exec(&a, &c));
    assert!(num_lt_exec(&a, &c));
    assert!(!num_lt_exec(&c, &a));
    assert!(num_le_exec(&a, &b));
    assert!(num_lt_exec(&d, &a));

    // a value that a floating-point comparison would conflate
    let x = parse_number("0.1").unwrap();
    let y = parse_number("0.100000001").unwrap();
    assert!(num_lt_exec(&x, &y));
}

/// Wholeness is a property of how the value was written.
#[test]
fn wholeness() {
    assert!(parse_number("3").unwrap().is_whole());
    assert!(!parse_number("3.0").unwrap().is_whole());
    assert!(!parse_number("3.14").unwrap().is_whole());
}
