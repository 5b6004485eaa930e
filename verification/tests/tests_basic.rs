use parsecute::parsers::basic::{any, do_try, eos, fails, lookahead, pure, satisfy, ByteIs};
use parsecute::parsers::execution::Executable;
use parsecute::parsers::response::FoldResponse;

#[test]
fn tests_basic_it_parse_with_returns() {
    let r = pure(1);

    assert_eq!(1, r.execute(b"a", 0).fold(
        |a: u32, _, _| a,
        |_, _| panic!("Parse error"),
    ));
}

#[test]
fn tests_basic_it_parse_with_returns_no_consumed() {
    let r = pure(1);

    assert_eq!(false, r.execute(b"a", 0).fold(
        |_: i32, _, b| b,
        |_, _| panic!("Parse error"),
    ));
}

#[test]
fn tests_basic_it_parse_with_fails_no_consumed() {
    let r = fails();

    assert_eq!(false, r.execute(b"a", 0).fold(
        |_: u32, _, _| panic!("Parse error"),
        |_, b| b,
    ));
}

#[test]
fn tests_basic_it_parse_with_any_success() {
    let r = any();

    assert_eq!('a', r.execute(b"a", 0).fold(
        |a, _, _| a as char,
        |_, _| panic!("Parse error"),
    ));
}

#[test]
fn tests_basic_it_parse_with_any_reject() {
    let r = any();

    assert_eq!(false, r.execute(b"", 0).fold(
        |_, _, _| panic!("Parse error"),
        |_, b| b,
    ));
}

#[test]
fn tests_basic_it_parse_with_eos_success() {
    let r = eos();

    assert_eq!((), r.execute(b"", 0).fold(
        |a, _, _| a,
        |_, _| panic!("Parse error"),
    ));
}

#[test]
fn tests_basic_it_parse_with_eos_reject() {
    let r = eos();

    assert_eq!(false, r.execute(b"a", 0).fold(
        |_, _, _| panic!("Parse error"),
        |_, b| b,
    ));
}

#[test]
fn tests_basic_it_parse_with_try_any_reject() {
    let r = do_try(any());

    assert_eq!(false, r.execute(b"", 0).fold(
        |_, _, _| panic!("Parse error"),
        |_, b| b,
    ));
}

#[test]
fn tests_basic_it_parse_with_try_any_success() {
    let r = do_try(any());

    assert_eq!(true, r.execute(b"a", 0).fold(
        |_, _, b| b,
        |_, _| panic!("Parse error"),
    ));
}

#[test]
fn tests_basic_it_parse_with_satisfy_any_reject() {
    let r = satisfy(any(), ByteIs(b'a'));

    assert_eq!(true, r.execute(b"b", 0).fold(
        |_, _, _| panic!("Parse error"),
        |_, b| b,
    ));
}

#[test]
fn tests_basic_it_parse_with_satisfy_any_success_unwrap() {
    let r = satisfy(any(), ByteIs(b'a'));

    assert_eq!(true, r.execute(b"a", 0).fold(
        |_, s, _| s == 1,
        |_, _| panic!("Parse error"),
    ));
}

#[test]
fn tests_basic_it_parse_with_satisfy_any_success() {
    let r = satisfy(any(), ByteIs(b'a'));

    assert_eq!(true, r.execute(b"a", 0).fold(
        |_, _, b| b,
        |_, _| panic!("Parse error"),
    ));
}

#[test]
fn tests_basic_it_parse_with_lookahead_any_reject() {
    let r = lookahead(any());

    assert_eq!(false, r.execute(b"", 0).fold(
        |_, _, _| panic!("Parse error"),
        |_, b| b,
    ));
}

#[test]
fn tests_basic_it_parse_with_lookahead_any_success() {
    let r = lookahead(any());

    assert_eq!(true, r.execute(b"a", 0).fold(
        |_, _, b| b,
        |_, _| panic!("Parse error"),
    ));
}

#[test]
fn tests_basic_it_parse_with_lookahead_any_success_no_unwrap() {
    let r = lookahead(any());

    assert_eq!(true, r.execute(b"a", 0).fold(
        |_, s, _| s == 0,
        |_, _| panic!("Parse error"),
    ));
}
