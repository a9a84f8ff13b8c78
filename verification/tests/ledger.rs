use expenses::parse_expenses;
use expenses::split_line;
use expenses::Expense;

fn read_amount(text: &str) -> Option<String> {
    text.parse::<f64>().ok().map(|amount| amount.to_string())
}

fn expense(name: &str, amount: f64) -> Expense {
    Expense { name: name.to_string(), amount: amount.to_string() }
}

fn lines(raw: &[&str]) -> Vec<String> {
    raw.iter().map(|line| line.to_string()).collect()
}

#[test]
fn to_string() {
    let expense = Expense { name: "foo".to_string(), amount: 22.3f64.to_string() };
    assert_eq!("foo,22.3", expense.to_string());
}

#[test]
fn parse_expenses_with_happy_path() {
    let file = lines(&["netflix,42", "google,3"]);
    let actual_expenses = parse_expenses(&file, read_amount);
    let expected_expenses = vec![
        Expense { name: "netflix".to_string(), amount: 42f64.to_string() },
        Expense { name: "google".to_string(), amount: 3f64.to_string() },
    ];

    assert_eq!(expected_expenses, actual_expenses);
}

#[test]
fn parse_expenses_with_broken_entries() {
    let file = lines(&[
        "broken_no_comma_value",
        "netflix,42",
        "too,many,fields,1",
        "amount_is_no_number,abc",
        "",
        "google,3",
        "trailing_delimiter,",
    ]);
    let actual_expenses = parse_expenses(&file, read_amount);
    let expected_expenses = vec![
        Expense { name: "netflix".to_string(), amount: 42f64.to_string() },
        Expense { name: "google".to_string(), amount: 3f64.to_string() },
    ];

    assert_eq!(expected_expenses, actual_expenses);
}

#[test]
fn parse_line_without_delimiter_is_skipped() {
    let file = lines(&["broken_no_comma_value", "netflix,42"]);
    assert_eq!(vec![expense("netflix", 42.0)], parse_expenses(&file, read_amount));
}

#[test]
fn parse_nothing_gives_nothing() {
    let file: Vec<String> = Vec::new();
    assert_eq!(Vec::<Expense>::new(), parse_expenses(&file, read_amount));
}

#[test]
fn parse_keeps_line_order_and_duplicates() {
    let file = lines(&["b,2", "a,1", "b,2", "c,0.5"]);
    let expected = vec![expense("b", 2.0), expense("a", 1.0), expense("b", 2.0), expense("c", 0.5)];
    assert_eq!(expected, parse_expenses(&file, read_amount));
}

#[test]
fn parse_takes_the_name_as_written() {
    let file = lines(&[" spaced out ,7", ",5", "caf\u{e9},3"]);
    let expected = vec![expense(" spaced out ", 7.0), expense("", 5.0), expense("caf\u{e9}", 3.0)];
    assert_eq!(expected, parse_expenses(&file, read_amount));
}

#[test]
fn parse_holds_the_amount_as_the_reader_gave_it() {
    let file = lines(&["a,42.0", "b,-2.50", "c,1e3", "d,+7", "e,.5"]);
    let parsed = parse_expenses(&file, read_amount);
    let amounts: Vec<&str> = parsed.iter().map(|e| e.amount.as_str()).collect();
    assert_eq!(vec!["42", "-2.5", "1000", "7", "0.5"], amounts);
}

#[test]
fn parse_skips_amounts_that_do_not_read() {
    let file = lines(&["a, 1", "b,1 ", "c,one", "d,1.2.3", "e,", "f,--1", "g,2"]);
    assert_eq!(vec![expense("g", 2.0)], parse_expenses(&file, read_amount));
}

#[test]
fn parse_asks_the_reader_about_the_second_field_only() {
    let file = lines(&["12,x", "x,12"]);
    let parsed = parse_expenses(&file, |text: &str| {
        if text == "12" {
            Some("twelve".to_string())
        } else {
            None
        }
    });
    assert_eq!(vec![Expense { name: "x".to_string(), amount: "twelve".to_string() }], parsed);
}

#[test]
fn split_line_with_one_delimiter() {
    assert_eq!(Some(("netflix".to_string(), "42".to_string())), split_line("netflix,42"));
    assert_eq!(Some(("".to_string(), "".to_string())), split_line(","));
    assert_eq!(Some(("a".to_string(), "".to_string())), split_line("a,"));
    assert_eq!(Some(("".to_string(), "b".to_string())), split_line(",b"));
    assert_eq!(Some(("na\u{ef}ve \u{20ac}".to_string(), "\u{20ac}1".to_string())), split_line("na\u{ef}ve \u{20ac},\u{20ac}1"));
}

#[test]
fn split_line_with_no_or_several_delimiters() {
    assert_eq!(None, split_line(""));
    assert_eq!(None, split_line("broken_no_comma_value"));
    assert_eq!(None, split_line("a,b,c"));
    assert_eq!(None, split_line(",,"));
    assert_eq!(None, split_line("a,1,"));
}

#[test]
fn line_round_trip() {
    for (name, amount) in [("netflix", 42.0), ("rent", 1234.56), ("refund", -0.1), ("", 0.0), ("tiny", 1e-7)] {
        let written = expense(name, amount);
        let line = written.to_string();
        let read = parse_expenses(&[line], read_amount);
        assert_eq!(vec![written.clone()], read);
        assert_eq!(amount, read[0].amount.parse::<f64>().unwrap());
    }
}

#[test]
fn line_round_trip_fails_on_delimiter_in_name() {
    let written = expense("a,b", 1.0);
    assert_eq!("a,b,1", written.to_string());
    assert_eq!(Vec::<Expense>::new(), parse_expenses(&[written.to_string()], read_amount));
}
