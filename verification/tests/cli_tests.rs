use screenshot::cli::{parse_isize, IntErrorKind, WindowHandle, WindowHandleParseError};
use screenshot::text::push_i64;

const SAMPLES: [&str; 24] = [
    "0",
    "42",
    "+42",
    "-42",
    "",
    "+",
    "-",
    "--1",
    "+-1",
    "12a",
    "a12",
    " 12",
    "12 ",
    "9223372036854775807",
    "9223372036854775808",
    "-9223372036854775808",
    "-9223372036854775809",
    "99999999999999999999",
    "-99999999999999999999",
    "99999999999999999999x",
    "0000000000000000000000001",
    "١٢",
    "1_000",
    "0x10",
];

#[test]
fn parse_matches_std() {
    for s in SAMPLES {
        let mine = parse_isize(s);
        let std_result = s.parse::<isize>();
        match (&mine, &std_result) {
            (Ok(a), Ok(b)) => assert_eq!(a, b, "{:?}", s),
            (Err(kind), Err(e)) => assert_eq!(kind.message(), e.to_string(), "{:?}", s),
            _ => panic!("results differ on {:?}: {:?} {:?}", s, mine, std_result),
        }
    }
}

#[test]
fn parse_error_kinds() {
    assert_eq!(parse_isize(""), Err(IntErrorKind::Empty));
    assert_eq!(parse_isize("-"), Err(IntErrorKind::InvalidDigit));
    assert_eq!(parse_isize("1x"), Err(IntErrorKind::InvalidDigit));
    assert_eq!(parse_isize("9223372036854775808"), Err(IntErrorKind::PosOverflow));
    assert_eq!(parse_isize("-9223372036854775809"), Err(IntErrorKind::NegOverflow));
    assert_eq!(parse_isize("-9223372036854775808"), Ok(isize::MIN));
}

#[test]
fn window_handle_from_str() {
    let handle: WindowHandle = "131586".parse().unwrap();
    assert_eq!(handle, WindowHandle(131586));
    let error = "abc".parse::<WindowHandle>().unwrap_err();
    assert_eq!(
        error,
        WindowHandleParseError("invalid digit found in string".to_string())
    );
    assert_eq!(error.to_string(), "invalid digit found in string");
    assert_eq!("-7".parse::<WindowHandle>(), Ok(WindowHandle(-7)));
    let error = WindowHandle::parse("").unwrap_err();
    assert_eq!(error.0, "cannot parse integer from empty string");
}

#[test]
fn decimal_handles_read_back() {
    for v in [0isize, 1, -1, 131586, isize::MAX, isize::MIN, -9007199254740993] {
        let mut s = String::new();
        push_i64(&mut s, v as i64);
        assert_eq!(WindowHandle::parse(&s), Ok(WindowHandle(v)));
    }
}
