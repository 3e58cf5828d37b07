use lisel::text::{decimal, rstrip};

#[test]
fn rstrip_removes_the_newline() {
    assert_eq!("abc", rstrip("abc\n"));
}

#[test]
fn rstrip_removes_carriage_return_and_newline() {
    assert_eq!("abc", rstrip("abc\r\n"));
}

#[test]
fn rstrip_removes_a_carriage_return_alone() {
    assert_eq!("abc", rstrip("abc\r"));
}

#[test]
fn rstrip_removes_every_terminator_at_the_end() {
    assert_eq!("abc", rstrip("abc\n\r\n\r\r\n"));
}

#[test]
fn rstrip_leaves_a_line_without_terminator() {
    assert_eq!("abc", rstrip("abc"));
    assert_eq!("", rstrip(""));
}

#[test]
fn rstrip_leaves_terminators_inside_the_line() {
    assert_eq!("a\rb\nc", rstrip("a\rb\nc\n"));
    assert_eq!("\nabc", rstrip("\nabc"));
}

#[test]
fn rstrip_of_terminators_alone_is_empty() {
    assert_eq!("", rstrip("\n"));
    assert_eq!("", rstrip("\r\n"));
    assert_eq!("", rstrip("\r\r\n\n"));
}

#[test]
fn rstrip_leaves_other_white_space() {
    assert_eq!("abc \t", rstrip("abc \t\n"));
    assert_eq!(" ", rstrip(" \n"));
}

#[test]
fn rstrip_counts_characters_not_bytes() {
    assert_eq!("\u{e9}t\u{e9}", rstrip("\u{e9}t\u{e9}\r\n"));
    assert_eq!("\u{65e5}\u{672c}\u{8a9e}", rstrip("\u{65e5}\u{672c}\u{8a9e}\n"));
    assert_eq!("a\u{1f600}", rstrip("a\u{1f600}\n\n"));
}

#[test]
fn decimal_of_small_numbers() {
    assert_eq!("0", decimal(0));
    assert_eq!("1", decimal(1));
    assert_eq!("9", decimal(9));
    assert_eq!("10", decimal(10));
    assert_eq!("11", decimal(11));
    assert_eq!("99", decimal(99));
    assert_eq!("100", decimal(100));
    assert_eq!("101", decimal(101));
}

#[test]
fn decimal_of_large_numbers() {
    assert_eq!("1234567890", decimal(1234567890));
    assert_eq!("4294967295", decimal(std::u32::MAX));
    assert_eq!("4000000000", decimal(4000000000));
}

#[test]
fn decimal_is_what_the_formatter_writes() {
    let mut n: u32 = 1;
    for _ in 0..200 {
        assert_eq!(format!("{}", n), decimal(n));
        n = n.wrapping_mul(2654435761).wrapping_add(12345);
    }
}
