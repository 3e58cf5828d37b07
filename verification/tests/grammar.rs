use lisel::lineparse::{range, Range};
use nom::branch::alt;
use nom::bytes::complete::tag;
use nom::character::complete::one_of;
use nom::combinator::{fail, recognize};
use nom::multi::many1;
use nom::sequence::{preceded, separated_pair, terminated};
use nom::IResult;

// The grammar of the index lines, written with parser combinators.

fn natural(input: &str) -> IResult<&str, u32> {
    let (input, value) = recognize(many1(one_of("0123456789")))(input)?;
    match value.parse::<u32>() {
        Ok(v) if v >= 1 => Ok((input, v)),
        _ => fail(input),
    }
}

fn single(input: &str) -> IResult<&str, Range> {
    let (input, value) = natural(input)?;
    Ok((input, Range::Single(value)))
}

fn interval_left_open(input: &str) -> IResult<&str, Range> {
    let (input, value) = preceded(tag(","), natural)(input)?;
    Ok((input, Range::Interval(u32::MIN, value)))
}

fn interval_right_open(input: &str) -> IResult<&str, Range> {
    let (input, value) = terminated(natural, tag(","))(input)?;
    Ok((input, Range::Interval(value, u32::MAX)))
}

fn interval(input: &str) -> IResult<&str, Range> {
    let (input, (left_limit, right_limit)) = separated_pair(natural, tag(","), natural)(input)?;
    Ok((input, Range::Interval(left_limit, right_limit)))
}

fn by_combinators(input: &str) -> Option<(&str, Range)> {
    alt((interval, interval_left_open, interval_right_open, single))(input).ok()
}

fn check(input: &str) {
    assert_eq!(by_combinators(input), range(input).ok(), "on {:?}", input);
}

fn check_all(alphabet: &[char], length: usize, text: &mut String) {
    check(text);
    if length == 0 {
        return;
    }
    for c in alphabet {
        text.push(*c);
        check_all(alphabet, length - 1, text);
        text.pop();
    }
}

#[test]
fn grammar_agrees_with_combinators_on_short_texts() {
    let alphabet = ['0', '1', '9', ',', ' ', 'x', '-', '\n'];
    check_all(&alphabet, 5, &mut String::new());
}

#[test]
fn grammar_agrees_with_combinators_on_digits_and_commas() {
    let alphabet = ['0', '3', ','];
    check_all(&alphabet, 9, &mut String::new());
}

#[test]
fn grammar_agrees_with_combinators_near_the_greatest_number() {
    let numbers = [
        "4294967294",
        "4294967295",
        "4294967296",
        "4294967305",
        "42949672950",
        "04294967295",
        "18446744073709551616",
        "1",
        "0",
        "",
    ];
    for left in numbers {
        check(left);
        for right in numbers {
            check(&format!("{},{}", left, right));
            check(&format!("{},{} ", left, right));
            check(&format!("{}{}", left, right));
        }
    }
}

#[test]
fn grammar_agrees_with_combinators_on_other_characters() {
    for input in [
        "\u{ff11}",
        "1\u{ff11}",
        "\u{ff11},2",
        "1,\u{ff12}",
        "1\u{ff0c}2",
        "\u{e9}",
        "12\u{e9}t\u{e9}",
        "1,2\u{1f600}",
        ",7\u{65e5}\u{672c}",
        "\u{0661}",
        "\r1",
        "1\r",
    ] {
        check(input);
    }
}
