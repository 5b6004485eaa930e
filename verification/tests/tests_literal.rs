use parsecute::parsers::execution::Executable;
use parsecute::parsers::literal::{delimited_char, delimited_string, digit};
use parsecute::parsers::response::FoldResponse;

#[test]
fn tests_literal_it_parse_with_char() {
    let r = 'a';

    assert_eq!('a', r.execute(b"ab", 0).fold(
        |a, _, _| a,
        |_, _| panic!("Parse error"),
    ));
}

#[test]
fn tests_literal_it_parse_with_char_consumed() {
    let r = 'a';

    assert_eq!(true, r.execute(b"ab", 0).fold(
        |_, _, b| b,
        |_, _| panic!("Parse error"),
    ));
}

#[test]
fn tests_literal_it_parse_with_char_rejected() {
    let r = 'a';

    assert_eq!(false, r.execute(b"b", 0).fold(
        |_, _, _| panic!("Parse error"),
        |_, b| b,
    ));
}

#[test]
fn tests_literal_it_parse_with_string() {
    let s = "a".repeat(1024 * 1024);
    let r = s.to_string();

    assert_eq!(r, r.execute(s.as_bytes(), 0).fold(
        |a, _, _| a,
        |_, _| panic!("Parse error"),
    ));
}

#[test]
fn tests_literal_it_parse_with_string_consumed() {
    let s = "a".repeat(1024 * 1024);
    let r = s.to_string();

    assert_eq!(true, r.execute(s.as_bytes(), 0).fold(
        |_, _, b| b,
        |_, _| panic!("Parse error"),
    ));
}

#[test]
fn tests_literal_it_parse_with_string_rejected() {
    let r = "ab".to_string();

    assert_eq!(false, r.execute(b"aa", 0).fold(
        |_, _, _| panic!("Parse error"),
        |_, b| b,
    ));
}

#[test]
fn tests_literal_it_parse_with_digit() {
    assert_eq!('0', digit().execute(b"0", 0).fold(
        |a, _, _| a,
        |_, _| panic!("Parse error"),
    ));
}

#[test]
fn tests_literal_it_parse_with_delimited_string() {
    let buf = b"\"1024\"";
    let sp = delimited_string().execute(buf, 0).fold(
        |a, _, _| a,
        |_, _| panic!("Parse error"),
    );

    assert_eq!("1024", std::str::from_utf8(&buf[sp.start..sp.end]).unwrap());
}

#[test]
fn tests_literal_it_parse_with_delimited_char() {
    assert_eq!('a', delimited_char().execute(b"'a'", 0).fold(
        |a, _, _| a,
        |_, _| panic!("Parse error"),
    ));
}
