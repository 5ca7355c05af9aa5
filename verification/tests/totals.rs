use password_policy::{count_valid, count_valid_strict, Parser};

fn lines(texts: &[&str]) -> Vec<String> {
    texts.iter().map(|text| text.to_string()).collect()
}

#[test]
fn counts_the_lines_that_pass_each_rule() {
    let parser = Parser::new().unwrap();
    let input = lines(&["1-3 a: abcde", "1-3 b: cdefg", "2-9 c: ccccccccc"]);
    assert_eq!(count_valid(&parser, &input), (2, 1));
    assert_eq!(count_valid_strict(&parser, &input).unwrap(), (2, 1));
}

#[test]
fn no_line_gives_zero_twice() {
    let parser = Parser::new().unwrap();
    assert_eq!(count_valid(&parser, &Vec::new()), (0, 0));
    assert_eq!(count_valid_strict(&parser, &Vec::new()).unwrap(), (0, 0));
}

#[test]
fn the_two_totals_are_independent() {
    let parser = Parser::new().unwrap();
    let input = lines(&["1-3 a: bca", "1-3 a: bcab", "2-2 a: aa", "1-1 z: zz", "3-4 q: q"]);
    // count rule: yes, yes, yes, no, no; position rule: yes, yes, no, no, no
    assert_eq!(count_valid(&parser, &input), (3, 2));
}

#[test]
fn a_line_counts_each_time_it_occurs() {
    let parser = Parser::new().unwrap();
    let input = lines(&["1-3 a: abcde", "1-3 a: abcde", "1-3 a: abcde"]);
    assert_eq!(count_valid(&parser, &input), (3, 3));
}

#[test]
fn count_valid_ignores_a_line_that_is_no_record() {
    let parser = Parser::new().unwrap();
    let input = lines(&[
        "1-3 a: abcde",
        "",
        "not a record",
        "99999999999999999999999-3 a: abcde",
        "2-9 c: ccccccccc",
        "1-3 a: ",
    ]);
    assert_eq!(count_valid(&parser, &input), (2, 1));
}

#[test]
fn count_valid_strict_fails_on_the_first_line_that_is_no_record() {
    let parser = Parser::new().unwrap();
    let input = lines(&[
        "1-3 a: abcde",
        "99999999999999999999999-3 a: abcde",
        "not a record",
    ]);
    assert_eq!(
        count_valid_strict(&parser, &input).unwrap_err().message(),
        "parse int error:number too large to fit in target type"
    );
    let input = lines(&["not a record", "99999999999999999999999-3 a: abcde"]);
    assert_eq!(count_valid_strict(&parser, &input).unwrap_err().message(), "Invalid record");
    let input = lines(&["1-3 a: abcde", "1-3 b: cdefg", ""]);
    assert_eq!(count_valid_strict(&parser, &input).unwrap_err().message(), "Invalid record");
}
