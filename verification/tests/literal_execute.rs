use parsecute::parsers::basic::ByteNot;
use parsecute::parsers::execution::Executable;
use parsecute::parsers::flow::{take_while, AndOperation, RepeatOperation};
use parsecute::parsers::literal::{delimited_char, delimited_string, digit, float};
use parsecute::parsers::response::FoldResponse;

#[test]
fn literal_execute_it_parse_with_char() {
    let r = 'a';

    assert_eq!(
        'a',
        r.execute(b"ab", 0)
            .fold(|a, _, _| a, |_, _| panic!("Parse error"),)
    );
}

#[test]
fn literal_execute_it_parse_with_char_consumed() {
    let r = 'a';

    assert_eq!(
        true,
        r.execute(b"ab", 0)
            .fold(|_, _, b| b, |_, _| panic!("Parse error"),)
    );
}

#[test]
fn literal_execute_it_parse_with_char_rejected() {
    let r = 'a';

    assert_eq!(
        false,
        r.execute(b"b", 0)
            .fold(|_, _, _| panic!("Parse error"), |_, b| b,)
    );
}

#[test]
fn literal_execute_it_parse_with_string() {
    let s = "a".repeat(1024 * 1024);
    let r = s.to_string();

    assert_eq!(
        r,
        r.execute(s.as_bytes(), 0)
            .fold(|a, _, _| a, |_, _| panic!("Parse error"),)
    );
}

#[test]
fn literal_execute_it_parse_with_string_consumed() {
    let s = "a".repeat(1024 * 1024);
    let r = s.to_string();

    assert_eq!(
        true,
        r.execute(s.as_bytes(), 0)
            .fold(|_, _, b| b, |_, _| panic!("Parse error"),)
    );
}

#[test]
fn literal_execute_it_parse_with_string_rejected() {
    let r = "ab".to_string();

    assert_eq!(
        false,
        r.execute(b"aa", 0)
            .fold(|_, _, _| panic!("Parse error"), |_, b| b,)
    );
}

#[test]
fn literal_execute_it_parse_with_digit() {
    assert_eq!(
        '0',
        digit()
            .execute(b"0", 0)
            .fold(|a, _, _| a, |_, _| panic!("Parse error"),)
    );
}

#[test]
fn literal_execute_it_parse_with_float() {
    let buf = b"-1024.32";
    let sp = float()
        .execute(buf, 0)
        .fold(|a, _, _| a, |_, _| panic!("Parse error"));

    assert_eq!(
        -1024.32,
        std::str::from_utf8(&buf[sp.start..sp.end]).unwrap().parse::<f64>().unwrap()
    );
}

#[test]
fn literal_execute_it_parse_with_delimited_string() {
    let buf = b"\"1024\"";
    let sp = delimited_string()
        .execute(buf, 0)
        .fold(|a, _, _| a, |_, _| panic!("Parse error"));

    assert_eq!("1024", std::str::from_utf8(&buf[sp.start..sp.end]).unwrap());
}

#[test]
fn literal_execute_it_parse_with_delimited_char() {
    assert_eq!(
        'a',
        delimited_char()
            .execute(b"'a'", 0)
            .fold(|a, _, _| a, |_, _| panic!("Parse error"),)
    );
}

#[test]
fn literal_execute_it_parse_extracting_float() {
    let p = "Hello<".to_string().then_right(float()).then_left('>');
    let buf = b"Hello<42>";
    let sp = p
        .execute(buf, 0)
        .fold(|a, _, _| a, |_, _| panic!("Parse error"));

    assert_eq!(
        42_f64,
        std::str::from_utf8(&buf[sp.start..sp.end]).unwrap().parse::<f64>().unwrap()
    );
}

#[test]
fn literal_execute_it_parse_extracting_csv_items() {
    let line = take_while(ByteNot(b',')).then(
        ','.then_right(take_while(ByteNot(b','))).optrep(),
    );

    assert_eq!(
        4,
        line.execute(b"a,b,c,d", 0)
            .fold(|(_, b), _, _| b.len() + 1, |_, _| panic!("Parse error"),)
    );
}
