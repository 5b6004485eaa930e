use parsecute::parsers::basic::{any, fail, pure, ByteNot};
use parsecute::parsers::execution::Executable;
use parsecute::parsers::flow::{and, opt, optrep, or, rep, take_while};
use parsecute::parsers::response::FoldResponse;

#[test]
fn tests_flow_it_parse_with_and() {
    let r = and(any(), any());

    assert_eq!(('a', 'b'), r.execute(b"ab", 0).fold(
        |(a, b), _, _| (a as char, b as char),
        |_, _| panic!("Parse error"),
    ));
}

#[test]
fn tests_flow_it_parse_with_or_success() {
    let r = or(pure(2), fail());

    assert_eq!(2, r.execute(b"a", 0).fold(
        |a, _, _| a,
        |_, _| panic!("Parse error"),
    ));
}

#[test]
fn tests_flow_it_parse_with_or_reject() {
    let r = or(fail(), pure(2));

    assert_eq!(2, r.execute(b"a", 0).fold(
        |a, _, _| a,
        |_, _| panic!("Parse error"),
    ));
}

#[test]
fn tests_flow_it_parse_with_opt_success() {
    let r = opt(any());

    assert_eq!(Some('a'), r.execute(b"a", 0).fold(
        |a, _, _| a.map(|x| x as char),
        |_, _| panic!("Parse error"),
    ));
}

#[test]
fn tests_flow_it_parse_with_opt_success_empty() {
    let r = opt(any());

    assert_eq!(None, r.execute(b"", 0).fold(
        |a, _, _| a,
        |_, _| panic!("Parse error"),
    ));
}

#[test]
fn tests_flow_it_parse_with_optrep_success() {
    let r = optrep(any());

    let s = 1024 * 64;
    assert_eq!(s, r.execute("a".repeat(s).as_bytes(), 0).fold(
        |a, _, _| a.len(),
        |_, _| panic!("Parse error"),
    ));
}

#[test]
fn tests_flow_it_parse_with_optrep_success_empty() {
    let r = optrep(any());

    assert_eq!(0, r.execute(b"", 0).fold(
        |a, _, _| a.len(),
        |_, _| panic!("Parse error"),
    ));
}

#[test]
fn tests_flow_it_parse_with_rep_success() {
    let r = rep(any());

    let s = 1024 * 256;
    assert_eq!(s, r.execute("a".repeat(s).as_bytes(), 0).fold(
        |a, _, _| a.len(),
        |_, _| panic!("Parse error"),
    ));
}

#[test]
fn tests_flow_it_parse_with_rep_reject_empty() {
    let r = rep(any());

    assert_eq!(false, r.execute(b"", 0).fold(
        |_, _, _| panic!("Parse error"),
        |_, b| b,
    ));
}

#[test]
fn tests_flow_it_parse_with_take_while() {
    let r = take_while(ByteNot(b'b'));

    assert_eq!(true, r.execute(b"aaaab", 0).fold(
        |r: Vec<u8>, _, _| r.len() == 4,
        |_, _| panic!("Parse error"),
    ));
}

#[test]
fn tests_flow_it_parse_with_take_while_empty() {
    let r = take_while(ByteNot(b'b'));

    assert_eq!(true, r.execute(b"b", 0).fold(
        |r: Vec<u8>, _, _| r.len() == 0,
        |_, _| panic!("Parse error"),
    ));
}

#[test]
fn tests_flow_it_parse_with_take_while_consumed() {
    let r = take_while(ByteNot(b'b'));

    assert_eq!(true, r.execute(b"aaaab", 0).fold(
        |_, _, b| b,
        |_, _| panic!("Parse error"),
    ));
}
