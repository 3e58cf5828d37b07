use lisel::buffered::select_lines;
use lisel::index::{new_index_type, Type};
use lisel::select::{Input, Select, SelectError, Step};
use regex::Regex;

fn lines(text: &str) -> Vec<String> {
    text.split_inclusive('\n').map(|x| x.to_string()).collect()
}

fn run(
    target: &str,
    index: &str,
    index_type: Option<Type>,
    invert_match: bool,
) -> Vec<Result<String, SelectError>> {
    select_lines(&lines(target), &lines(index), index_type, invert_match)
}

fn ok(items: &[&str]) -> Vec<Result<String, SelectError>> {
    items.iter().map(|x| Ok(x.to_string())).collect()
}

fn re(pattern: &str) -> Option<Type> {
    Some(Type::Re(Regex::new(pattern).unwrap()))
}

#[test]
fn buffered_number() {
    let got = run("l1\nl2\nl3\nl4\nl5\n", "1\n3,4\n", None, false);
    assert_eq!(ok(&["l1\n", "l3\n", "l4\n"]), got);
}

#[test]
fn buffered_number_invert() {
    let got = run("l1\nl2\nl3\nl4\nl5\n", "1\n3,4\n", None, true);
    assert_eq!(ok(&["l2\n", "l5\n"]), got);
}

#[test]
fn buffered_re_default() {
    let got = run("l1\nl2\nl3\nl4\nl5\n", "1\n\n1\n", re(".+"), false);
    assert_eq!(ok(&["l1\n", "l3\n"]), got);
}

#[test]
fn buffered_re_default_invert() {
    let got = run("l1\nl2\nl3\nl4\nl5\n", "1\n\n1\n", re(".+"), true);
    assert_eq!(ok(&["l2\n", "l4\n", "l5\n"]), got);
}

#[test]
fn buffered_re_longer_index() {
    let got = run("l1\nl2\nl3\n", "1\n\n1\n1\n", re(".+"), false);
    assert_eq!(ok(&["l1\n", "l3\n"]), got);
    let got = run("l1\nl2\nl3\n", "1\n\n1\n1\n", re(".+"), true);
    assert_eq!(ok(&["l2\n"]), got);
}

#[test]
fn buffered_nothing_to_read() {
    assert_eq!(ok(&[]), run("", "", None, false));
    assert_eq!(ok(&[]), run("", "", None, true));
    assert_eq!(ok(&[]), run("", "", re(".+"), false));
    assert_eq!(ok(&[]), run("l1\n", "", re(".+"), false));
    assert_eq!(ok(&["l1\n"]), run("l1\n", "", re(".+"), true));
}

#[test]
fn buffered_parse_failure_ends_the_output() {
    let got = run("l1\nl2\nl3\nl4\n", "2\nthree\n4\n", None, false);
    assert_eq!(
        vec![
            Ok("l2\n".to_string()),
            Err(SelectError::Parse(
                "Number|target=3|index=2|line=three|result=expected a digit: three".to_string()
            )),
        ],
        got
    );
}

#[test]
fn buffered_last_line_without_terminator() {
    let got = run("l1\nl2", "2", None, false);
    assert_eq!(ok(&["l2"]), got);
}

#[test]
fn buffered_rerun_gives_the_same_output() {
    let target = lines("a\nb\nc\nd\ne\n");
    let index = lines("2\n\n4,\n");
    for invert in [false, true] {
        let first = select_lines(&target, &index, None, invert);
        let second = select_lines(&target, &index, None, invert);
        assert_eq!(first, second);
    }
    let index = lines("x\n\nx\ny\n");
    for invert in [false, true] {
        let first = select_lines(&target, &index, re("x"), invert);
        let second = select_lines(&target, &index, re("x"), invert);
        assert_eq!(first, second);
    }
}

#[test]
fn buffered_agrees_with_the_engine_driven_by_hand() {
    let target = lines("a\nb\nc\nd\ne\nf\n");
    let index = lines("\n2,3\n\n5\noops\n");
    for invert in [false, true] {
        let mut engine = Select::new(None, invert);
        let mut t = target.iter();
        let mut i = index.iter();
        let mut by_hand = Vec::new();
        let mut step = engine.next();
        loop {
            step = match step {
                Step::Target => engine.target(match t.next() {
                    Some(line) => Input::Line(line.clone()),
                    None => Input::End,
                }),
                Step::Index => engine.index(match i.next() {
                    Some(line) => Input::Line(line.clone()),
                    None => Input::End,
                }),
                Step::Yield(item) => {
                    by_hand.push(item);
                    engine.next()
                }
                Step::End => break,
            };
        }
        assert_eq!(by_hand, select_lines(&target, &index, None, invert));
    }
}

/// The lines that an index matched by content selects: the target line at a
/// place by the index line at the same place.
fn selected_by_content(
    target: &[String],
    index: &[String],
    pattern: &Regex,
    invert_match: bool,
) -> Vec<Result<String, SelectError>> {
    let mut items = Vec::new();
    for (at, line) in target.iter().enumerate() {
        let selected = match index.get(at) {
            Some(index_line) => {
                pattern.is_match(index_line.trim_end_matches(['\r', '\n'])) != invert_match
            }
            None => invert_match,
        };
        if selected {
            items.push(Ok(line.clone()));
        }
    }
    items
}

/// The lines that a numeric index selects: each target line is judged by the
/// first index line that is not blank and whose range does not end before it.
fn selected_by_number(
    target: &[String],
    index: &[String],
    invert_match: bool,
) -> Vec<Result<String, SelectError>> {
    let mut items = Vec::new();
    for (at, line) in target.iter().enumerate() {
        let linum = at as u32 + 1;
        let mut judge = None;
        for (place, index_line) in index.iter().enumerate() {
            let text = index_line.trim_end_matches(['\r', '\n']);
            if text.is_empty() {
                continue;
            }
            match lisel::lineparse::range(text) {
                Ok((_, r)) => {
                    let (start, end) = match r {
                        lisel::lineparse::Range::Single(n) => (n, n),
                        lisel::lineparse::Range::Interval(s, e) => (s, e),
                    };
                    if end < linum {
                        continue;
                    }
                    judge = Some(Ok(start <= linum));
                }
                Err(e) => {
                    judge = Some(Err(format!(
                        "Number|target={}|index={}|line={}|result={}",
                        linum,
                        place + 1,
                        text,
                        e.to_string()
                    )));
                }
            }
            break;
        }
        match judge {
            Some(Ok(inside)) => {
                if inside != invert_match {
                    items.push(Ok(line.clone()));
                }
            }
            Some(Err(detail)) => {
                items.push(Err(SelectError::Parse(detail)));
                return items;
            }
            None => {
                if !invert_match {
                    return items;
                }
                items.push(Ok(line.clone()));
            }
        }
    }
    items
}

fn every_index(forms: &[&str], length: usize, index: &mut Vec<String>, check: &dyn Fn(&[String])) {
    check(index);
    if length == 0 {
        return;
    }
    for form in forms {
        index.push(form.to_string());
        every_index(forms, length - 1, index, check);
        index.pop();
    }
}

#[test]
fn buffered_number_is_judged_by_the_first_expression_not_behind() {
    let target = lines("l1\nl2\nl3\nl4\nl5\nl6\nl7\n");
    let forms = [
        "\n", "1\n", "3\n", "2,4\r\n", ",2\n", "5,\n", "x\n", "4,3\n", "0\n", "6 six\n",
    ];
    every_index(&forms, 4, &mut Vec::new(), &|index| {
        for invert in [false, true] {
            assert_eq!(
                selected_by_number(&target, index, invert),
                select_lines(&target, &index.to_vec(), None, invert),
                "index {:?} invert {}",
                index,
                invert
            );
        }
    });
}

#[test]
fn buffered_content_is_judged_line_by_line() {
    let target = lines("l1\nl2\nl3\nl4\n");
    let forms = ["\n", "1\n", "x\r\n", "\r\n", " \n", "1"];
    let pattern = Regex::new(".+").unwrap();
    let index_type = Type::Re(pattern.clone());
    every_index(&forms, 5, &mut Vec::new(), &|index| {
        for invert in [false, true] {
            assert_eq!(
                selected_by_content(&target, index, &pattern, invert),
                select_lines(&target, &index.to_vec(), Some(index_type.clone()), invert),
                "index {:?} invert {}",
                index,
                invert
            );
        }
    });
}

#[test]
fn buffered_content_surplus_index_does_not_matter() {
    let target = lines("l1\nl2\nl3\n");
    let index = lines("a\nb\na\nb\na\na\n");
    let short = lines("a\nb\na\n");
    for invert in [false, true] {
        assert_eq!(
            select_lines(&target, &short, re("a"), invert),
            select_lines(&target, &index, re("a"), invert)
        );
    }
}

#[test]
fn buffered_number_ignores_the_index_beyond_the_target() {
    let target = lines("l1\nl2\n");
    assert_eq!(
        ok(&["l2\n"]),
        select_lines(&target, &lines("2\n7\nno range\n"), None, false)
    );
    assert_eq!(
        ok(&["l1\n"]),
        select_lines(&target, &lines("2\n7\nno range\n"), None, true)
    );
}

#[test]
fn buffered_default_pattern() {
    let by_default = || new_index_type(None, false).unwrap();
    let got = run("l1\nl2\nl3\nl4\nl5\n", "1\n\n1\n", by_default(), false);
    assert_eq!(ok(&["l1\n", "l3\n"]), got);
    let got = run("l1\nl2\nl3\nl4\nl5\n", "1\n\n1\n", by_default(), true);
    assert_eq!(ok(&["l2\n", "l4\n", "l5\n"]), got);
}

/// The lines whose number an expression of the index holds.
fn listed(target: &[String], index: &[(u32, u32)], invert_match: bool) -> Vec<Result<String, SelectError>> {
    let mut items = Vec::new();
    for (at, line) in target.iter().enumerate() {
        let linum = at as u32 + 1;
        let held = index.iter().any(|(start, end)| *start <= linum && linum <= *end);
        if held != invert_match {
            items.push(Ok(line.clone()));
        }
    }
    items
}

fn write(index: &[(u32, u32)]) -> Vec<String> {
    index
        .iter()
        .map(|(start, end)| {
            if *start == std::u32::MIN {
                format!(",{}\n", end)
            } else if *end == std::u32::MAX {
                format!("{},\n", start)
            } else if start == end {
                format!("{}\n", start)
            } else {
                format!("{},{}\n", start, end)
            }
        })
        .collect()
}

fn every_index_in_order(
    length: usize,
    index: &mut Vec<(u32, u32)>,
    check: &dyn Fn(&[(u32, u32)]),
) {
    check(index);
    if length == 0 {
        return;
    }
    let least = index.last().map(|x| x.0).unwrap_or(0);
    for start in least..=6 {
        for end in [1, 2, 3, 5, 6, 7, std::u32::MAX] {
            if start == 0 && end == std::u32::MAX {
                continue;
            }
            index.push((start, end));
            every_index_in_order(length - 1, index, check);
            index.pop();
        }
    }
}

#[test]
fn buffered_number_in_order_selects_what_is_listed() {
    let target = lines("l1\nl2\nl3\nl4\nl5\nl6\n");
    every_index_in_order(3, &mut Vec::new(), &|index| {
        for invert in [false, true] {
            assert_eq!(
                listed(&target, index, invert),
                select_lines(&target, &write(index), None, invert),
                "index {:?} invert {}",
                index,
                invert
            );
        }
    });
}
