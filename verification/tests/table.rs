use expenses::error::ExpenseError;
use expenses::find_longest_expense_amount;
use expenses::find_longest_expense_name;
use expenses::pad_expenses;
use expenses::parse_expenses;
use expenses::render_expense_summary;
use expenses::render_expense_table;
use expenses::render_header;
use expenses::render_spacer;
use expenses::text::measure;
use expenses::text::pad;
use expenses::Expense;

fn read_amount(text: &str) -> Option<String> {
    text.parse::<f64>().ok().map(|amount| amount.to_string())
}

fn expense(name: &str, amount: f64) -> Expense {
    Expense { name: name.to_string(), amount: amount.to_string() }
}

fn sum(expenses: &[Expense]) -> String {
    let mut sum: f64 = 0.0;
    for expense in expenses {
        sum += expense.amount.parse::<f64>().unwrap();
    }
    sum.to_string()
}

#[test]
fn pad_expense_names_happy_path() {
    let expenses = vec![Expense { name: "foo".to_string(), amount: 0f64.to_string() }];
    let result_expenses = pad_expenses(&expenses, 4, 8);
    assert_eq!(true, result_expenses.is_ok());
}

#[test]
fn pad_expense_names_broken() {
    let expenses = vec![Expense { name: "foo".to_string(), amount: 0f64.to_string() }];
    let result_expenses = pad_expenses(&expenses, 2, 3);
    assert_eq!(true, result_expenses.is_err());
}

#[test]
fn pad_expenses_pads_with_trailing_spaces() {
    let expenses = vec![expense("foo", 0.0), expense("quux", 12.5)];
    let cells = pad_expenses(&expenses, 4, 8).unwrap();
    assert_eq!(2, cells.len());
    assert_eq!("foo ", cells[0].name);
    assert_eq!("0       ", cells[0].amount);
    assert_eq!("quux", cells[1].name);
    assert_eq!("12.5    ", cells[1].amount);
}

#[test]
fn pad_expenses_at_exact_width_adds_nothing() {
    let expenses = vec![expense("foo", 42.0)];
    let cells = pad_expenses(&expenses, 3, 2).unwrap();
    assert_eq!("foo", cells[0].name);
    assert_eq!("42", cells[0].amount);
}

#[test]
fn pad_expenses_of_nothing() {
    assert_eq!(0, pad_expenses(&[], 0, 0).unwrap().len());
}

#[test]
fn pad_expenses_reports_too_narrow_a_column() {
    let expenses = vec![expense("foo", 0.0), expense("longer", 0.0)];
    let too_narrow_name: ExpenseError = pad_expenses(&expenses, 5, 8).err().unwrap();
    assert_eq!("Padding went wrong!", too_narrow_name.to_string());
    let too_narrow_amount = pad_expenses(&expenses, 6, 0).err().unwrap();
    assert_eq!("Padding went wrong!", too_narrow_amount.to_string());
    assert!(pad_expenses(&expenses, 6, 1).is_ok());
}

#[test]
fn error_keeps_its_message() {
    assert_eq!("nope", ExpenseError::new("nope").to_string());
    assert_eq!("", ExpenseError::new("").to_string());
}

#[test]
fn pad_measures_in_bytes() {
    assert_eq!(3, measure("foo"));
    assert_eq!(0, measure(""));
    assert_eq!(5, measure("caf\u{e9}"));
    assert_eq!("foo  ", pad("foo", 5));
    assert_eq!("foo", pad("foo", 3));
    assert_eq!("foo", pad("foo", 1));
    assert_eq!("   ", pad("", 3));
    assert_eq!("caf\u{e9} ", pad("caf\u{e9}", 6));
}

#[test]
fn column_widths_are_at_least_the_labels() {
    assert_eq!(4, find_longest_expense_name(&[]));
    assert_eq!(8, find_longest_expense_amount(&[]));
    let short = vec![expense("a", 1.0)];
    assert_eq!(4, find_longest_expense_name(&short));
    assert_eq!(8, find_longest_expense_amount(&short));
}

#[test]
fn column_widths_follow_the_longest_cell() {
    let expenses = vec![expense("netflix", 42.0), expense("google", 1234567.125), expense("x", 3.0)];
    assert_eq!(7, find_longest_expense_name(&expenses));
    assert_eq!(11, find_longest_expense_amount(&expenses));
}

#[test]
fn spacer_has_two_more_dashes_than_each_width() {
    assert_eq!("+------+----------+\n", render_spacer(4, 8));
    assert_eq!("+--+--+\n", render_spacer(0, 0));
    assert_eq!("+---------+---+\n", render_spacer(7, 1));
}

#[test]
fn header_at_label_widths() {
    assert_eq!("+------+----------+\n| What | How much |\n+------+----------+\n", render_header(4, 8));
}

#[test]
fn header_pads_labels_to_wider_columns() {
    assert_eq!(
        "+---------+------------+\n| What    | How much   |\n+---------+------------+\n",
        render_header(7, 10)
    );
}

#[test]
fn header_keeps_labels_whole_in_narrower_columns() {
    assert_eq!("+----+--------------+\n| What | How much     |\n+----+--------------+\n", render_header(2, 12));
}

#[test]
fn table_of_nothing() {
    let table = render_expense_table(&[]).unwrap();
    assert_eq!("+------+----------+\n| What | How much |\n+------+----------+\n+------+----------+\n", table);
}

#[test]
fn table_of_netflix_and_google() {
    let file = vec!["netflix,42".to_string(), "google,3".to_string()];
    let expenses = parse_expenses(&file, read_amount);
    assert_eq!(vec![expense("netflix", 42.0), expense("google", 3.0)], expenses);
    let table = render_expense_table(&expenses).unwrap();
    let expected = "\
+---------+----------+
| What    | How much |
+---------+----------+
| netflix | 42       |
| google  | 3        |
+---------+----------+
";
    assert_eq!(expected, table);
    assert_eq!("Summary: 45 \u{20ac}", render_expense_summary(&sum(&expenses)));
}

#[test]
fn table_with_long_amounts() {
    let expenses = vec![expense("a", 1234567890.5), expense("bb", -1.0)];
    let expected = "\
+------+--------------+
| What | How much     |
+------+--------------+
| a    | 1234567890.5 |
| bb   | -1           |
+------+--------------+
";
    assert_eq!(expected, render_expense_table(&expenses).unwrap());
}

#[test]
fn table_keeps_input_order_and_duplicates() {
    let expenses = vec![expense("b", 2.0), expense("a", 1.0), expense("b", 2.0)];
    let expected = "\
+------+----------+
| What | How much |
+------+----------+
| b    | 2        |
| a    | 1        |
| b    | 2        |
+------+----------+
";
    assert_eq!(expected, render_expense_table(&expenses).unwrap());
}

#[test]
fn table_lines_are_equally_long_in_bytes() {
    let expenses = vec![expense("caf\u{e9} cr\u{e8}me", 3.5), expense("t", 10.0), expense("", 0.25)];
    let table = render_expense_table(&expenses).unwrap();
    let lengths: Vec<usize> = table.lines().map(|line| line.len()).collect();
    assert_eq!(7, lengths.len());
    assert!(lengths.iter().all(|length| *length == lengths[0]));
    assert!(table.ends_with('\n'));
}

#[test]
fn summary_of_nothing_is_zero() {
    assert_eq!("0", sum(&[]));
    assert_eq!("Summary: 0 \u{20ac}", render_expense_summary(&sum(&[])));
}

#[test]
fn summary_of_two_amounts() {
    let expenses = vec![expense("a", 1.5), expense("b", 2.5)];
    assert_eq!("4", sum(&expenses));
    assert_eq!("Summary: 4 \u{20ac}", render_expense_summary(&sum(&expenses)));
}

#[test]
fn summary_shows_the_sum_as_given() {
    assert_eq!("Summary: 0.30000000000000004 \u{20ac}", render_expense_summary(&(0.1f64 + 0.2f64).to_string()));
    assert_eq!("Summary: -12.5 \u{20ac}", render_expense_summary("-12.5"));
}
