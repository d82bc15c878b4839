use rps_cfr::iterations::{
    parse_i32, read_num_iters, IterationChoice, ParseFailure, DEFAULT_NUM_ITERS,
};
use std::num::IntErrorKind;

fn by_std(text: &str) -> Result<i32, ParseFailure> {
    match text.parse::<i32>() {
        Ok(value) => Ok(value),
        Err(error) => Err(match error.kind() {
            IntErrorKind::Empty => ParseFailure::Empty,
            IntErrorKind::InvalidDigit => ParseFailure::InvalidDigit,
            IntErrorKind::PosOverflow => ParseFailure::PosOverflow,
            IntErrorKind::NegOverflow => ParseFailure::NegOverflow,
            other => panic!("unexpected kind {:?}", other),
        }),
    }
}

#[test]
fn default_is_one_hundred_thousand() {
    assert_eq!(DEFAULT_NUM_ITERS, 100_000);
}

#[test]
fn valid_count_is_given_back() {
    let choice = read_num_iters(Some("250".as_bytes()));
    assert_eq!(choice, IterationChoice::Given(250));
    assert_eq!(choice.num_iters(), 250);
    let choice = read_num_iters(Some("1000000".as_bytes()));
    assert_eq!(choice.num_iters(), 1_000_000);
    let choice = read_num_iters(Some("-3".as_bytes()));
    assert_eq!(choice, IterationChoice::Given(-3));
    assert_eq!(choice.num_iters(), -3);
}

#[test]
fn missing_count_falls_back_to_the_default() {
    let choice = read_num_iters(None);
    assert_eq!(choice, IterationChoice::Missing);
    assert_eq!(choice.num_iters(), 100_000);
}

#[test]
fn unreadable_count_falls_back_to_the_default() {
    let choice = read_num_iters(Some("many".as_bytes()));
    assert_eq!(choice, IterationChoice::Unparsable(ParseFailure::InvalidDigit));
    assert_eq!(choice.num_iters(), 100_000);
    let choice = read_num_iters(Some("".as_bytes()));
    assert_eq!(choice, IterationChoice::Unparsable(ParseFailure::Empty));
    assert_eq!(choice.num_iters(), 100_000);
    let choice = read_num_iters(Some("3000000000".as_bytes()));
    assert_eq!(choice, IterationChoice::Unparsable(ParseFailure::PosOverflow));
    assert_eq!(choice.num_iters(), 100_000);
    let choice = read_num_iters(Some("-3000000000".as_bytes()));
    assert_eq!(choice, IterationChoice::Unparsable(ParseFailure::NegOverflow));
    assert_eq!(choice.num_iters(), 100_000);
}

#[test]
fn parse_reads_signs_and_digits() {
    assert_eq!(parse_i32(b"0"), Ok(0));
    assert_eq!(parse_i32(b"-0"), Ok(0));
    assert_eq!(parse_i32(b"+17"), Ok(17));
    assert_eq!(parse_i32(b"000123"), Ok(123));
    assert_eq!(parse_i32(b"2147483647"), Ok(i32::MAX));
    assert_eq!(parse_i32(b"-2147483648"), Ok(i32::MIN));
    assert_eq!(parse_i32(b"00000000000000000000000000000000000000042"), Ok(42));
}

#[test]
fn parse_names_each_failure() {
    assert_eq!(parse_i32(b""), Err(ParseFailure::Empty));
    assert_eq!(parse_i32(b"+"), Err(ParseFailure::InvalidDigit));
    assert_eq!(parse_i32(b"-"), Err(ParseFailure::InvalidDigit));
    assert_eq!(parse_i32(b" 5"), Err(ParseFailure::InvalidDigit));
    assert_eq!(parse_i32(b"5 "), Err(ParseFailure::InvalidDigit));
    assert_eq!(parse_i32(b"1e5"), Err(ParseFailure::InvalidDigit));
    assert_eq!(parse_i32(b"100,000"), Err(ParseFailure::InvalidDigit));
    assert_eq!(parse_i32(b"2147483648"), Err(ParseFailure::PosOverflow));
    assert_eq!(parse_i32(b"-2147483649"), Err(ParseFailure::NegOverflow));
    assert_eq!(parse_i32(b"99999999999x"), Err(ParseFailure::PosOverflow));
    assert_eq!(parse_i32(b"-99999999999x"), Err(ParseFailure::NegOverflow));
    assert_eq!(parse_i32(b"2147483647x"), Err(ParseFailure::InvalidDigit));
    assert_eq!(parse_i32(&[0xC3, 0xA9]), Err(ParseFailure::InvalidDigit));
}

#[test]
fn parse_agrees_with_the_standard_library() {
    let texts = [
        "", "+", "-", "0", "-0", "+0", "7", "-7", "+7", "++7", "+-7", "--7", "7-", "12a", "a12",
        " 12", "12 ", "1 2", "0x10", "1_000", "100,000", "1e5", "1.5", "100000", "2147483647",
        "2147483648", "-2147483648", "-2147483649", "+2147483647", "+2147483648", "21474836470",
        "-21474836480", "00000000002147483647", "00000000002147483648", "-0000000000002147483648",
        "99999999999999999999999999", "-99999999999999999999999999", "99999999999x", "9999999999x9",
        "-99999999999x", "2147483647x", "214748364x", "x2147483648", "\u{e9}", "\u{663}", "12\u{e9}",
        "/", ":", "0/", "9:",
    ];
    for text in texts {
        assert_eq!(parse_i32(text.as_bytes()), by_std(text), "on {:?}", text);
    }
}

#[test]
fn parse_agrees_with_the_standard_library_on_every_short_text() {
    let alphabet = ['+', '-', '0', '1', '9', 'a', ' '];
    let mut texts: Vec<String> = vec![String::new()];
    let mut from = 0;
    for _ in 0..4 {
        let upto = texts.len();
        for i in from..upto {
            for c in alphabet {
                let mut longer = texts[i].clone();
                longer.push(c);
                texts.push(longer);
            }
        }
        from = upto;
    }
    assert_eq!(texts.len(), 1 + 7 + 49 + 343 + 2401);
    for text in &texts {
        assert_eq!(parse_i32(text.as_bytes()), by_std(text), "on {:?}", text);
    }
}
