use typed_lowering::{Error, ErrorKind};

#[test]
fn error_keeps_kind_and_description() {
    let e = Error::new(ErrorKind::UnsupportedType, "not supported T:Star".to_string());
    assert_eq!(e.kind(), ErrorKind::UnsupportedType);
    assert_eq!(e.description(), "not supported T:Star");
    let e = Error::new(ErrorKind::UnsupportedExpression, String::new());
    assert_eq!(e.kind(), ErrorKind::UnsupportedExpression);
    assert_eq!(e.description(), "");
}

#[test]
fn parse_error_becomes_a_syntax_error() {
    let parse: lalrpop_util::ParseError<usize, (usize, &str), ()> =
        lalrpop_util::ParseError::UnrecognizedToken {
            token: (3, (1, "let"), 6),
            expected: vec!["\"fn\"".to_string()],
        };
    let text = format!("{:?}", parse);
    let e = Error::from(parse);
    assert_eq!(e.kind(), ErrorKind::Syntax);
    assert_eq!(e.description(), text);
    assert!(e.description().contains("UnrecognizedToken"));
    assert!(e.description().contains("let"));
}

#[test]
fn parse_errors_of_different_kinds_read_differently() {
    let a: lalrpop_util::ParseError<usize, (usize, &str), ()> =
        lalrpop_util::ParseError::InvalidToken { location: 4 };
    let b: lalrpop_util::ParseError<usize, (usize, &str), ()> =
        lalrpop_util::ParseError::User { error: () };
    let ea = Error::from(a);
    let eb = Error::from(b);
    assert_eq!(ea.description(), "InvalidToken { location: 4 }");
    assert_eq!(eb.description(), "User { error: () }");
}
