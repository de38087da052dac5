use cvars::value::{parse_nonzero_i8, parse_nonzero_u64, parse_nonzero_u8, validate_nonzero_u8};
use cvars::{Error, IntErrorKind, ParseIntError, Value};

fn too_big(value: &str, min: &str, max: &str) -> Error {
    Error::TooBig { value: value.to_string(), min: min.to_string(), max: max.to_string() }
}

fn too_small(value: &str, min: &str, max: &str) -> Error {
    Error::TooSmall { value: value.to_string(), min: min.to_string(), max: max.to_string() }
}

#[test]
fn bool_accepts_its_words_in_any_case() {
    for (text, expected) in [
        ("t", true),
        ("f", false),
        ("T", true),
        ("F", false),
        ("true", true),
        ("false", false),
        ("TRUE", true),
        ("0", false),
        ("1", true),
        ("FaLsE", false),
    ] {
        assert_eq!(bool::parse(text), Ok(expected), "{}", text);
    }
}

#[test]
fn bool_refuses_other_text() {
    assert_eq!(bool::parse(""), Err(Error::EmptyValue));
    assert_eq!(bool::parse("yes"), Err(Error::invalid_value("yes")));
    assert_eq!(bool::parse("truee"), Err(Error::invalid_value("truee")));
    assert_eq!(bool::parse("2"), Err(Error::invalid_value("2")));
}

#[test]
fn bool_completes_prefixes() {
    assert_eq!(bool::validate("t").unwrap(), vec!["true"]);
    assert_eq!(bool::validate("fa").unwrap(), vec!["false"]);
    assert_eq!(bool::validate("").unwrap(), vec!["true", "false"]);
    assert!(bool::validate("x").unwrap().is_empty());
    assert!(bool::validate("T").unwrap().is_empty());
}

#[test]
fn string_must_be_quoted() {
    assert_eq!(String::parse("\"abc\""), Ok("abc".to_string()));
    assert_eq!(String::parse("\"\""), Ok(String::new()));
    assert_eq!(String::parse("\"h\u{e9} there\""), Ok("h\u{e9} there".to_string()));
    assert_eq!(String::parse("abc"), Err(Error::invalid_value("abc")));
    assert_eq!(String::parse("\""), Err(Error::invalid_value("\"")));
    assert_eq!(String::parse("\"abc"), Err(Error::invalid_value("\"abc")));
    assert_eq!(String::validate("\"a b\"").unwrap(), Vec::<String>::new());
    assert_eq!(String::validate("a"), Err(Error::invalid_value("a")));
}

#[test]
fn unsigned_bounds() {
    assert_eq!(u8::parse("255"), Ok(255));
    assert_eq!(u8::parse("+7"), Ok(7));
    assert_eq!(u8::parse("2550"), Err(too_big("2550", "0", "255")));
    assert_eq!(u8::parse("256"), Err(too_big("256", "0", "255")));
    assert_eq!(u8::parse("-1"), Err(Error::invalid_value("-1")));
    assert_eq!(u8::parse(""), Err(Error::EmptyValue));
    assert_eq!(u8::parse("+"), Err(Error::invalid_value("+")));
    assert_eq!(u8::parse("1a"), Err(Error::invalid_value("1a")));
    assert_eq!(u8::parse("999a"), Err(too_big("999a", "0", "255")));
    assert_eq!(u16::parse("65535"), Ok(u16::MAX));
    assert_eq!(u16::parse("65536"), Err(too_big("65536", "0", "65535")));
    assert_eq!(u32::parse("4294967295"), Ok(u32::MAX));
    assert_eq!(u32::parse("42949672950"), Err(too_big("42949672950", "0", "4294967295")));
    assert_eq!(u64::parse(&u64::MAX.to_string()), Ok(u64::MAX));
    let over = format!("{}0", u64::MAX);
    assert_eq!(u64::parse(&over), Err(too_big(&over, "0", &u64::MAX.to_string())));
    assert_eq!(u128::parse(&u128::MAX.to_string()), Ok(u128::MAX));
    let over = format!("{}0", u128::MAX);
    assert_eq!(u128::parse(&over), Err(too_big(&over, "0", &u128::MAX.to_string())));
    assert_eq!(usize::parse(&usize::MAX.to_string()), Ok(usize::MAX));
    let over = format!("{}0", usize::MAX);
    assert_eq!(usize::parse(&over), Err(too_big(&over, "0", &usize::MAX.to_string())));
    assert_eq!(u32::parse("-1"), Err(Error::invalid_value("-1")));
    assert_eq!(u128::parse(""), Err(Error::EmptyValue));
}

#[test]
fn signed_bounds() {
    assert_eq!(i8::parse("127"), Ok(127));
    assert_eq!(i8::parse("-128"), Ok(-128));
    assert_eq!(i8::parse("128"), Err(too_big("128", "-128", "127")));
    assert_eq!(i8::parse("-129"), Err(too_small("-129", "-128", "127")));
    assert_eq!(i8::parse("-"), Err(Error::invalid_value("-")));
    assert_eq!(i8::parse("-1"), Ok(-1));
    assert_eq!(i8::parse("--1"), Err(Error::invalid_value("--1")));
    assert_eq!(i16::parse("32767"), Ok(i16::MAX));
    assert_eq!(i16::parse("-32769"), Err(too_small("-32769", "-32768", "32767")));
    assert_eq!(i32::parse("-2147483648"), Ok(i32::MIN));
    assert_eq!(i64::parse(&i64::MAX.to_string()), Ok(i64::MAX));
    assert_eq!(i64::parse(&i64::MIN.to_string()), Ok(i64::MIN));
    let over = format!("{}0", i64::MAX);
    assert_eq!(
        i64::parse(&over),
        Err(too_big(&over, &i64::MIN.to_string(), &i64::MAX.to_string()))
    );
    assert_eq!(i128::parse(&i128::MAX.to_string()), Ok(i128::MAX));
    assert_eq!(i128::parse(&i128::MIN.to_string()), Ok(i128::MIN));
    let under = format!("{}0", i128::MIN);
    assert_eq!(
        i128::parse(&under),
        Err(too_small(&under, &i128::MIN.to_string(), &i128::MAX.to_string()))
    );
    assert_eq!(isize::parse(&isize::MIN.to_string()), Ok(isize::MIN));
    let over = format!("{}0", isize::MAX);
    assert_eq!(
        isize::parse(&over),
        Err(too_big(&over, &isize::MIN.to_string(), &isize::MAX.to_string()))
    );
    assert_eq!(i32::parse(""), Err(Error::EmptyValue));
}

#[test]
fn integer_validate_reports_no_candidates() {
    assert_eq!(u8::validate("12").unwrap(), Vec::<String>::new());
    assert_eq!(i16::validate("-12").unwrap(), Vec::<String>::new());
    assert_eq!(u8::validate("300"), Err(too_big("300", "0", "255")));
    assert_eq!(i8::validate("x"), Err(Error::invalid_value("x")));
    assert_eq!(u64::validate(""), Err(Error::EmptyValue));
}

#[test]
fn error_constructors() {
    assert_eq!(Error::invalid_value("q"), Error::InvalidValue { value: "q".to_string() });
    assert_eq!(Error::too_large("9", "0", "5"), too_big("9", "0", "5"));
    assert_eq!(Error::too_small("-9", "0", "5"), too_small("-9", "0", "5"));
}

#[test]
fn parse_int_error_mapping() {
    let e = |kind| ParseIntError { kind };
    assert_eq!(Error::from_parse_int_error(e(IntErrorKind::Empty), "", "0", "9"), Error::EmptyValue);
    assert_eq!(
        Error::from_parse_int_error(e(IntErrorKind::InvalidDigit), "x", "0", "9"),
        Error::invalid_value("x")
    );
    assert_eq!(
        Error::from_parse_int_error(e(IntErrorKind::PosOverflow), "99", "0", "9"),
        too_big("99", "0", "9")
    );
    assert_eq!(
        Error::from_parse_int_error(e(IntErrorKind::NegOverflow), "-99", "0", "9"),
        too_small("-99", "0", "9")
    );
    assert_eq!(
        Error::from_parse_int_error(e(IntErrorKind::Zero), "0", "1", "9"),
        Error::invalid_value("0")
    );
    assert_eq!(e(IntErrorKind::Zero).kind(), IntErrorKind::Zero);
}

#[test]
fn nonzero_refuses_zero() {
    assert_eq!(parse_nonzero_u8("5"), Ok(5));
    assert_eq!(parse_nonzero_u8("0"), Err(Error::invalid_value("0")));
    assert_eq!(parse_nonzero_u8("256"), Err(too_big("256", "1", "255")));
    assert_eq!(parse_nonzero_u8(""), Err(Error::EmptyValue));
    assert_eq!(parse_nonzero_i8("-128"), Ok(-128));
    assert_eq!(parse_nonzero_i8("-0"), Err(Error::invalid_value("-0")));
    assert_eq!(parse_nonzero_i8("-129"), Err(too_small("-129", "-128", "127")));
    assert_eq!(parse_nonzero_u64(&u64::MAX.to_string()), Ok(u64::MAX));
    assert_eq!(validate_nonzero_u8("9").unwrap(), Vec::<String>::new());
    assert_eq!(validate_nonzero_u8("00"), Err(Error::invalid_value("00")));
}
