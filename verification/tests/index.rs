use lisel::index::{new_index_type, Type, DEFAULT_PATTERN};
use lisel::lineparse::Range;
use regex::Regex;

#[test]
fn type_select_re_matched() {
    assert_eq!(true, Type::Re(Regex::new("a").unwrap()).select(10, "a"));
}

#[test]
fn type_select_re_not_matched() {
    assert_eq!(false, Type::Re(Regex::new("a").unwrap()).select(10, "b"));
}

#[test]
fn type_select_number_single_matched() {
    assert_eq!(true, Type::Number(Range::Single(10)).select(10, "a"));
}

#[test]
fn type_select_number_single_not_matched() {
    assert_eq!(false, Type::Number(Range::Single(10)).select(11, "a"));
}

#[test]
fn type_select_number_interval_matched() {
    assert_eq!(true, Type::Number(Range::Interval(9, 11)).select(10, "a"));
}

#[test]
fn type_select_number_interval_not_matched() {
    assert_eq!(false, Type::Number(Range::Interval(10, 11)).select(12, "a"));
}

#[test]
fn type_select_number_interval_include_end_matched() {
    assert_eq!(true, Type::Number(Range::Interval(10, 10)).select(10, "a"));
}

#[test]
fn type_select_number_interval_without_size_not_matched() {
    assert_eq!(false, Type::Number(Range::Interval(11, 9)).select(10, "a"));
}

#[test]
fn type_select_re_matches_anywhere_in_the_line() {
    let t = Type::Re(Regex::new("b+").unwrap());
    assert!(t.select(0, "aabbcc"));
    assert!(!t.select(0, "aacc"));
    assert!(!t.select(0, ""));
}

#[test]
fn type_select_re_ignores_the_line_number() {
    let t = Type::Re(Regex::new("^x$").unwrap());
    for linum in [0, 1, 7, std::u32::MAX] {
        assert!(t.select(linum, "x"));
        assert!(!t.select(linum, "y"));
    }
}

#[test]
fn type_select_number_ignores_the_line() {
    let t = Type::Number(Range::Interval(3, 5));
    for line in ["", "3", "anything"] {
        assert!(!t.select(2, line));
        assert!(t.select(3, line));
        assert!(t.select(5, line));
        assert!(!t.select(6, line));
    }
}

#[test]
fn type_select_single_is_equality() {
    let t = Type::Number(Range::Single(7));
    for n in 0..20 {
        assert_eq!(n == 7, t.select(n, ""));
    }
    assert!(!t.select(std::u32::MAX, ""));
}

#[test]
fn type_select_inverted_interval_is_empty() {
    let t = Type::Number(Range::Interval(8, 4));
    for n in 0..20 {
        assert!(!t.select(n, ""));
    }
}

#[test]
fn type_select_open_intervals() {
    let left = Type::Number(Range::Interval(std::u32::MIN, 5));
    assert!(left.select(0, ""));
    assert!(left.select(5, ""));
    assert!(!left.select(6, ""));
    let right = Type::Number(Range::Interval(5, std::u32::MAX));
    assert!(!right.select(4, ""));
    assert!(right.select(5, ""));
    assert!(right.select(std::u32::MAX, ""));
}

#[test]
fn type_bounds_of_a_regular_expression() {
    let t = Type::Re(Regex::new("a").unwrap());
    assert_eq!(std::u32::MIN, t.start());
    assert_eq!(std::u32::MAX, t.end());
}

#[test]
fn type_bounds_of_a_number() {
    assert_eq!(4, Type::Number(Range::Single(4)).start());
    assert_eq!(4, Type::Number(Range::Single(4)).end());
    assert_eq!(3, Type::Number(Range::Interval(3, 9)).start());
    assert_eq!(9, Type::Number(Range::Interval(3, 9)).end());
    assert_eq!(9, Type::Number(Range::Interval(9, 3)).start());
    assert_eq!(3, Type::Number(Range::Interval(9, 3)).end());
}

#[test]
fn type_clone_matches_like_its_source() {
    let t = Type::Re(Regex::new("^l[13]$").unwrap());
    let copy = t.clone();
    for line in ["l1", "l2", "l3", ""] {
        assert_eq!(t.select(0, line), copy.select(0, line));
    }
}

fn pattern_of(index_type: Option<Type>) -> Option<String> {
    match index_type {
        Some(Type::Re(r)) => Some(r.as_str().to_string()),
        Some(Type::Number(_)) => panic!("a range at the start"),
        None => None,
    }
}

#[test]
fn new_index_type_of_a_numeric_index() {
    assert_eq!(None, pattern_of(new_index_type(None, true).unwrap()));
}

#[test]
fn new_index_type_numeric_comes_first() {
    let given = Regex::new("a|b").unwrap();
    assert_eq!(None, pattern_of(new_index_type(Some(given), true).unwrap()));
}

#[test]
fn new_index_type_keeps_the_pattern_that_is_given() {
    let given = Regex::new("^a+$").unwrap();
    assert_eq!(
        Some("^a+$".to_string()),
        pattern_of(new_index_type(Some(given), false).unwrap())
    );
}

#[test]
fn new_index_type_falls_back_to_the_default_pattern() {
    assert_eq!(".+", DEFAULT_PATTERN);
    assert_eq!(
        Some(".+".to_string()),
        pattern_of(new_index_type(None, false).unwrap())
    );
}

#[test]
fn default_pattern_selects_what_is_not_empty() {
    let t = new_index_type(None, false).unwrap().unwrap();
    assert!(!t.select(0, ""));
    for line in ["1", "x", " ", "0", "\t", "\u{e9}", "a b c", "\r"] {
        assert!(t.select(0, line), "{:?}", line);
    }
}
