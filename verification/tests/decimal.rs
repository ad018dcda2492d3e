use spread_circuit::decimal::{parse_double, parse_unsigned, power_of_ten, print_unsigned};

fn check(text: &str) {
    let wanted = text.parse::<f64>().ok();
    let got = parse_double(text).map(|x| f64::from_bits(x.bits));
    match (got, wanted) {
        (Some(a), Some(b)) if a.is_nan() => assert!(b.is_nan(), "{text:?}"),
        (a, b) => assert_eq!(a.map(f64::to_bits), b.map(f64::to_bits), "{text:?}"),
    }
}

#[test]
fn decimal_texts_read_as_on_the_machine() {
    for text in [
        "0", "-0", "+0", "1", "42.1", "42.123456", "0.1", ".5", "5.", ".", "", " 1", "1 ", "1e3",
        "1E3", "1e+3", "1e-3", "1e", "e5", "1e5.0", "1.5e10", "-2.5e-7", "+3.25", "--1", "+-1",
        "inf", "-inf", "+inf", "infinity", "-Infinity", "INF", "nan", "NaN", "-nan", "infinit",
        "0x10", "1_000", "1,000", "9007199254740993", "9007199254740992.5", "1e308", "1.8e308",
        "1e309", "1e400", "-1e400", "1e-323", "5e-324", "2.4703282292062327e-324",
        "2.4703282292062328e-324", "1e-400", "0e999999999999999999999", "0.0000e5",
        "1e99999999999999999999", "1e-99999999999999999999", "2.2250738585072011e-308",
        "2.2250738585072012e-308", "179769313486231580793728971405303415079934132710037826936173778980444968292764750946649017977587207096330286416692887910946555547851940402630657488671505820681908902000708383676273854845817711531764475730270069855571366959622842914819860834936475292719074168444365510704342711559699508093042880",
        "0.30000000000000004", "123456789012345678901234567890", "1234567890.0987654321e-5",
        "٣", "1٣", "½",
    ] {
        check(text);
    }
}

#[test]
fn printed_doubles_read_back() {
    let mut state: u64 = 12345;
    for n in 0..200 {
        state = state.wrapping_mul(6364136223846793005).wrapping_add(1442695040888963407);
        let x = f64::from_bits(state ^ (state >> 31));
        if n < 20 {
            check(&format!("{x}"));
            check(&format!("{x:e}"));
        }
        let y = (state >> 20) as f64 / 1e6;
        check(&format!("{y:.3}"));
        check(&format!("{y:.17}"));
    }
}

#[test]
fn whole_numbers_read_as_on_the_machine() {
    for text in ["0", "1", "+1", "-1", "-0", "", "+", "255", "256", "0255", "65535", "65536", "1.0",
        "1e3", " 5", "4294967295", "4294967296", "18446744073709551615", "18446744073709551616",
        "99999999999999999999999999", "١"]
    {
        assert_eq!(parse_unsigned(text, u8::MAX as u64), text.parse::<u8>().ok().map(u64::from), "{text:?}");
        assert_eq!(parse_unsigned(text, u16::MAX as u64), text.parse::<u16>().ok().map(u64::from), "{text:?}");
        assert_eq!(parse_unsigned(text, u32::MAX as u64), text.parse::<u32>().ok().map(u64::from), "{text:?}");
        assert_eq!(parse_unsigned(text, u64::MAX), text.parse::<u64>().ok(), "{text:?}");
    }
}

#[test]
fn whole_numbers_print_as_on_the_machine() {
    for n in [0, 7, 10, 99, 100, 120, 1000, 18446744073709551615] {
        assert_eq!(print_unsigned(n), n.to_string());
    }
}

#[test]
fn powers_of_ten() {
    assert_eq!(power_of_ten(0), 1);
    assert_eq!(power_of_ten(6), 1_000_000);
    assert_eq!(power_of_ten(38), 10u128.pow(38));
}
