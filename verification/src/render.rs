//! Rendering a ledger as a bordered table, and its summary line.
//!
//! A table is measured first and padded second: each column is made as wide
//! as its label or its longest cell, whichever is longer, and every cell is
//! then filled up to that width with trailing spaces. Expenses are shown in
//! the order they come in; none is left out, moved or merged.

use vstd::prelude::*;
use crate::error::ExpenseError;
use crate::expense::Expense;
use crate::expense::ExpenseView;
use crate::expense::views;
use crate::text::length;
use crate::text::length_add;
use crate::text::length_of_ascii;
use crate::text::measure;
use crate::text::pad;
use crate::text::padded;
use crate::text::padded_length;
use crate::text::push_run;
use crate::text::run;

verus! {

/// The label above the name column.
pub const EXPENSE_NAME_HEADER: &'static str = "What";

/// The label above the amount column.
pub const EXPENSE_AMOUNT_HEADER: &'static str = "How much";

/// The label of the summary line.
pub const EXPENSE_SUMMARY: &'static str = "Summary";

/// The currency marker that ends the summary line.
pub const CURRENCY: &'static str = "€";

/// What a failed padding reports.
pub const PADDING_FAILURE: &'static str = "Padding went wrong!";

/// An expense whose name and amount have been padded to their columns.
pub struct PaddedExpense {
    pub name: String,
    pub amount: String,
}

/// The names of `expenses`, in order.
pub open spec fn names(expenses: Seq<ExpenseView>) -> Seq<Seq<char>> {
    expenses.map_values(|expense: ExpenseView| expense.name)
}

/// The amounts of `expenses`, in order.
pub open spec fn amounts(expenses: Seq<ExpenseView>) -> Seq<Seq<char>> {
    expenses.map_values(|expense: ExpenseView| expense.amount)
}

/// The width of a column: the length of its longest cell, and no less than
/// the length of its label.
pub open spec fn column_width(label: Seq<char>, cells: Seq<Seq<char>>) -> nat
    decreases cells.len(),
{
    if cells.len() == 0 {
        length(label)
    } else {
        let rest = column_width(label, cells.drop_last());
        if length(cells.last()) > rest {
            length(cells.last())
        } else {
            rest
        }
    }
}

/// The width of the name column of a table of `expenses`.
pub open spec fn name_width(expenses: Seq<ExpenseView>) -> nat {
    column_width(EXPENSE_NAME_HEADER@, names(expenses))
}

/// The width of the amount column of a table of `expenses`.
pub open spec fn amount_width(expenses: Seq<ExpenseView>) -> nat {
    column_width(EXPENSE_AMOUNT_HEADER@, amounts(expenses))
}

/// The width of the name column: the length of the longest name, and no
/// less than that of the column's label.
pub fn find_longest_expense_name(expenses: &[Expense]) -> (longest: usize)
    ensures
        longest == name_width(views(expenses@)),
        longest >= length(EXPENSE_NAME_HEADER@),
{
    let mut longest: usize = measure(EXPENSE_NAME_HEADER);
    let mut i: usize = 0;
    while i < expenses.len()
        invariant
            i <= expenses@.len(),
            longest == name_width(views(expenses@.take(i as int))),
            longest >= length(EXPENSE_NAME_HEADER@),
        decreases expenses@.len() - i,
    {
        proof {
            let done = names(views(expenses@.take(i as int + 1)));
            assert(done.drop_last() =~= names(views(expenses@.take(i as int))));
            assert(done.last() == expenses@[i as int].name@);
        }
        let actual_length: usize = measure(expenses[i].name.as_str());
        if actual_length > longest {
            longest = actual_length;
        }
        i = i + 1;
    }
    proof {
        assert(expenses@.take(i as int) =~= expenses@);
    }
    longest
}

/// The width of the amount column: the length of the longest amount, and no
/// less than that of the column's label.
pub fn find_longest_expense_amount(expenses: &[Expense]) -> (longest: usize)
    ensures
        longest == amount_width(views(expenses@)),
        longest >= length(EXPENSE_AMOUNT_HEADER@),
{
    let mut longest: usize = measure(EXPENSE_AMOUNT_HEADER);
    let mut i: usize = 0;
    while i < expenses.len()
        invariant
            i <= expenses@.len(),
            longest == amount_width(views(expenses@.take(i as int))),
            longest >= length(EXPENSE_AMOUNT_HEADER@),
        decreases expenses@.len() - i,
    {
        proof {
            let done = amounts(views(expenses@.take(i as int + 1)));
            assert(done.drop_last() =~= amounts(views(expenses@.take(i as int))));
            assert(done.last() == expenses@[i as int].amount@);
        }
        let actual_length: usize = measure(expenses[i].amount.as_str());
        if actual_length > longest {
            longest = actual_length;
        }
        i = i + 1;
    }
    proof {
        assert(expenses@.take(i as int) =~= expenses@);
    }
    longest
}

/// Whether every name of `expenses` fits in `name_width` and every amount
/// in `amount_width`.
pub open spec fn fits(expenses: Seq<ExpenseView>, name_width: nat, amount_width: nat) -> bool {
    forall|i: int|
        0 <= i < expenses.len() ==> length(#[trigger] expenses[i].name) <= name_width && length(
            expenses[i].amount,
        ) <= amount_width
}

/// Pads every name to `longest_name` and every amount to `longest_amount`
/// with trailing spaces, in order. Fails, padding nothing, where a name or
/// an amount is longer than its width.
pub fn pad_expenses(expenses: &[Expense], longest_name: usize, longest_amount: usize) -> (r: Result<
    Vec<PaddedExpense>,
    ExpenseError,
>)
    ensures
        match r {
            Ok(cells) => {
                &&& fits(views(expenses@), longest_name as nat, longest_amount as nat)
                &&& cells@.len() == expenses@.len()
                &&& forall|i: int|
                    0 <= i < cells@.len() ==> {
                        &&& (#[trigger] cells@[i]).name@ == padded(expenses@[i].name@, longest_name as nat)
                        &&& cells@[i].amount@ == padded(expenses@[i].amount@, longest_amount as nat)
                    }
            },
            Err(error) => {
                &&& !fits(views(expenses@), longest_name as nat, longest_amount as nat)
                &&& error@ == PADDING_FAILURE@
            },
        },
{
    let mut padded_expenses: Vec<PaddedExpense> = Vec::new();
    let mut i: usize = 0;
    while i < expenses.len()
        invariant
            i <= expenses@.len(),
            fits(views(expenses@.take(i as int)), longest_name as nat, longest_amount as nat),
            padded_expenses@.len() == i,
            forall|j: int|
                0 <= j < i ==> {
                    &&& (#[trigger] padded_expenses@[j]).name@ == padded(
                        expenses@[j].name@,
                        longest_name as nat,
                    )
                    &&& padded_expenses@[j].amount@ == padded(expenses@[j].amount@, longest_amount as nat)
                },
        decreases expenses@.len() - i,
    {
        let expense = &expenses[i];
        let actual_name_length: usize = measure(expense.name.as_str());
        let actual_amount_length: usize = measure(expense.amount.as_str());
        if actual_name_length > longest_name || actual_amount_length > longest_amount {
            proof {
                let all = views(expenses@);
                assert(all[i as int].name == expense.name@);
                assert(all[i as int].amount == expense.amount@);
            }
            return Err(ExpenseError::new(PADDING_FAILURE));
        }
        padded_expenses.push(
            PaddedExpense {
                name: pad(expense.name.as_str(), longest_name),
                amount: pad(expense.amount.as_str(), longest_amount),
            },
        );
        proof {
            let before = views(expenses@.take(i as int));
            let done = views(expenses@.take(i as int + 1));
            assert forall|j: int| 0 <= j < done.len() implies length(#[trigger] done[j].name)
                <= longest_name && length(done[j].amount) <= longest_amount by {
                if j < i {
                    assert(done[j] == before[j]);
                }
            }
        }
        i = i + 1;
    }
    proof {
        assert(expenses@.take(i as int) =~= expenses@);
    }
    Ok(padded_expenses)
}

/// The horizontal rule of a table whose columns are `name_width` and
/// `amount_width` wide: under each column a dash for every place of its
/// width and two more, between plus signs, and a line end.
pub open spec fn rule(name_width: nat, amount_width: nat) -> Seq<char> {
    "+"@ + run('-', name_width + 2) + "+"@ + run('-', amount_width + 2) + "+\n"@
}

/// A table row that shows `name` and `amount` as they are, framed by bars,
/// and a line end.
pub open spec fn row(name: Seq<char>, amount: Seq<char>) -> Seq<char> {
    "| "@ + name + " | "@ + amount + " |\n"@
}

/// The head of a table: a rule, the row of the two labels, each padded to
/// its column, and a rule.
pub open spec fn header(name_width: nat, amount_width: nat) -> Seq<char> {
    rule(name_width, amount_width) + row(
        padded(EXPENSE_NAME_HEADER@, name_width),
        padded(EXPENSE_AMOUNT_HEADER@, amount_width),
    ) + rule(name_width, amount_width)
}

/// The rows of `expenses`, one after the other in their order, each name
/// and amount padded to its column.
pub open spec fn rows(expenses: Seq<ExpenseView>, name_width: nat, amount_width: nat) -> Seq<char>
    decreases expenses.len(),
{
    if expenses.len() == 0 {
        Seq::empty()
    } else {
        rows(expenses.drop_last(), name_width, amount_width) + row(
            padded(expenses.last().name, name_width),
            padded(expenses.last().amount, amount_width),
        )
    }
}

/// The table of `expenses`: the head, a row for each expense, and a closing
/// rule, with columns as wide as their longest cell needs.
pub open spec fn table(expenses: Seq<ExpenseView>) -> Seq<char> {
    header(name_width(expenses), amount_width(expenses)) + rows(
        expenses,
        name_width(expenses),
        amount_width(expenses),
    ) + rule(name_width(expenses), amount_width(expenses))
}

/// The summary line of a ledger whose amounts add up to `sum`.
pub open spec fn summary(sum: Seq<char>) -> Seq<char> {
    EXPENSE_SUMMARY@ + ": "@ + sum + " "@ + CURRENCY@
}

/// Renders the horizontal rule of a table.
pub fn render_spacer(longest_name: usize, longest_amount: usize) -> (line: String)
    ensures
        line@ == rule(longest_name as nat, longest_amount as nat),
{
    proof {
        reveal_strlit("-");
        reveal_strlit("--");
    }
    let mut line = String::from_str("+");
    push_run(&mut line, "-", longest_name);
    line.append("--");
    assert(run('-', longest_name as nat) + "--"@ =~= run('-', longest_name as nat + 2));
    line.append("+");
    push_run(&mut line, "-", longest_amount);
    line.append("--");
    assert(run('-', longest_amount as nat) + "--"@ =~= run('-', longest_amount as nat + 2));
    line.append("+\n");
    assert(line@ =~= rule(longest_name as nat, longest_amount as nat));
    line
}

/// Appends the row of the cells `name` and `amount` to `out`.
fn push_row(out: &mut String, name: &str, amount: &str)
    ensures
        final(out)@ == old(out)@ + row(name@, amount@),
{
    out.append("| ");
    out.append(name);
    out.append(" | ");
    out.append(amount);
    out.append(" |\n");
    assert(out@ =~= old(out)@ + row(name@, amount@));
}

/// Renders the head of a table.
pub fn render_header(longest_name: usize, longest_amount: usize) -> (head: String)
    ensures
        head@ == header(longest_name as nat, longest_amount as nat),
{
    let spacer = render_spacer(longest_name, longest_amount);
    let name = pad(EXPENSE_NAME_HEADER, longest_name);
    let amount = pad(EXPENSE_AMOUNT_HEADER, longest_amount);
    let mut head = spacer.clone();
    push_row(&mut head, name.as_str(), amount.as_str());
    head.append(spacer.as_str());
    head
}

/// Renders the table of `expenses`, every line of it ended.
///
/// The columns are measured before any cell is padded, so the padding never
/// fails: the result is always the table.
pub fn render_expense_table(expenses: &[Expense]) -> (r: Result<String, ExpenseError>)
    ensures
        r matches Ok(text) && text@ == table(views(expenses@)),
{
    let longest_name = find_longest_expense_name(expenses);
    let longest_amount = find_longest_expense_amount(expenses);
    proof {
        widths_fit(views(expenses@));
    }
    let padded_expenses = pad_expenses(expenses, longest_name, longest_amount)?;
    let mut text = render_header(longest_name, longest_amount);
    let ghost head = text@;
    let mut i: usize = 0;
    while i < padded_expenses.len()
        invariant
            i <= padded_expenses@.len(),
            padded_expenses@.len() == expenses@.len(),
            forall|j: int|
                0 <= j < padded_expenses@.len() ==> {
                    &&& (#[trigger] padded_expenses@[j]).name@ == padded(
                        expenses@[j].name@,
                        longest_name as nat,
                    )
                    &&& padded_expenses@[j].amount@ == padded(expenses@[j].amount@, longest_amount as nat)
                },
            text@ == head + rows(
                views(expenses@.take(i as int)),
                longest_name as nat,
                longest_amount as nat,
            ),
        decreases padded_expenses@.len() - i,
    {
        proof {
            let done = views(expenses@.take(i as int + 1));
            assert(done.drop_last() =~= views(expenses@.take(i as int)));
            assert(done.last() == expenses@[i as int]@);
        }
        let expense = &padded_expenses[i];
        push_row(&mut text, expense.name.as_str(), expense.amount.as_str());
        i = i + 1;
    }
    proof {
        assert(expenses@.take(i as int) =~= expenses@);
    }
    let spacer = render_spacer(longest_name, longest_amount);
    text.append(spacer.as_str());
    Ok(text)
}

/// Renders the summary line of a ledger whose amounts add up to `sum`,
/// given as decimal text. The line is not ended.
pub fn render_expense_summary(sum: &str) -> (line: String)
    ensures
        line@ == summary(sum@),
{
    let mut line = String::from_str(EXPENSE_SUMMARY);
    line.append(": ");
    line.append(sum);
    line.append(" ");
    line.append(CURRENCY);
    line
}

/// A column is at least as wide as its label and as each of its cells, and
/// exactly as wide as one of them.
pub proof fn column_width_is_longest(label: Seq<char>, cells: Seq<Seq<char>>)
    ensures
        column_width(label, cells) >= length(label),
        forall|i: int| 0 <= i < cells.len() ==> column_width(label, cells) >= length(#[trigger] cells[i]),
        column_width(label, cells) == length(label) || exists|i: int|
            0 <= i < cells.len() && column_width(label, cells) == length(#[trigger] cells[i]),
    decreases cells.len(),
{
    if cells.len() > 0 {
        let rest = cells.drop_last();
        column_width_is_longest(label, rest);
        assert forall|i: int| 0 <= i < cells.len() implies column_width(label, cells) >= length(
            #[trigger] cells[i],
        ) by {
            if i < rest.len() {
                assert(rest[i] == cells[i]);
            }
        }
        if column_width(label, cells) != length(label) && column_width(label, cells) != length(
            cells.last(),
        ) {
            let i = choose|i: int| 0 <= i < rest.len() && column_width(label, rest) == length(#[trigger] rest[i]);
            assert(rest[i] == cells[i]);
        }
    }
}

/// The name label is 4 bytes long, the amount label 8.
pub proof fn label_lengths()
    ensures
        length(EXPENSE_NAME_HEADER@) == 4,
        length(EXPENSE_AMOUNT_HEADER@) == 8,
{
    reveal_strlit("What");
    reveal_strlit("How much");
    length_of_ascii(EXPENSE_NAME_HEADER@);
    length_of_ascii(EXPENSE_AMOUNT_HEADER@);
}

/// Whatever the expenses, and with none at all, each column is at least as
/// wide as its label.
pub proof fn widths_cover_labels(expenses: Seq<ExpenseView>)
    ensures
        name_width(expenses) >= length(EXPENSE_NAME_HEADER@) == 4,
        amount_width(expenses) >= length(EXPENSE_AMOUNT_HEADER@) == 8,
        name_width(Seq::empty()) == 4,
        amount_width(Seq::empty()) == 8,
{
    label_lengths();
    column_width_is_longest(EXPENSE_NAME_HEADER@, names(expenses));
    column_width_is_longest(EXPENSE_AMOUNT_HEADER@, amounts(expenses));
    assert(names(Seq::empty()) =~= Seq::<Seq<char>>::empty());
    assert(amounts(Seq::empty()) =~= Seq::<Seq<char>>::empty());
}

/// A rule is as long as both columns and eight places more, and so is every
/// row whose cells were padded to columns that they fit in: all lines of a
/// table are equally long.
pub proof fn row_as_long_as_rule(name: Seq<char>, amount: Seq<char>, name_width: nat, amount_width: nat)
    requires
        length(name) <= name_width,
        length(amount) <= amount_width,
    ensures
        length(rule(name_width, amount_width)) == name_width + amount_width + 8,
        length(row(padded(name, name_width), padded(amount, amount_width))) == name_width + amount_width
            + 8,
{
    reveal_strlit("+");
    reveal_strlit("+\n");
    reveal_strlit("| ");
    reveal_strlit(" | ");
    reveal_strlit(" |\n");
    length_of_ascii("+"@);
    length_of_ascii("+\n"@);
    length_of_ascii("| "@);
    length_of_ascii(" | "@);
    length_of_ascii(" |\n"@);
    length_of_ascii(run('-', name_width + 2));
    length_of_ascii(run('-', amount_width + 2));
    length_add("+"@, run('-', name_width + 2));
    length_add("+"@ + run('-', name_width + 2), "+"@);
    length_add("+"@ + run('-', name_width + 2) + "+"@, run('-', amount_width + 2));
    length_add("+"@ + run('-', name_width + 2) + "+"@ + run('-', amount_width + 2), "+\n"@);
    let name_cell = padded(name, name_width);
    let amount_cell = padded(amount, amount_width);
    padded_length(name, name_width);
    padded_length(amount, amount_width);
    length_add("| "@, name_cell);
    length_add("| "@ + name_cell, " | "@);
    length_add("| "@ + name_cell + " | "@, amount_cell);
    length_add("| "@ + name_cell + " | "@ + amount_cell, " |\n"@);
}

/// Every name and amount fits in the column that was measured for it.
pub proof fn widths_fit(expenses: Seq<ExpenseView>)
    ensures
        fits(expenses, name_width(expenses), amount_width(expenses)),
{
    column_width_is_longest(EXPENSE_NAME_HEADER@, names(expenses));
    column_width_is_longest(EXPENSE_AMOUNT_HEADER@, amounts(expenses));
    assert forall|i: int| 0 <= i < expenses.len() implies length(#[trigger] expenses[i].name)
        <= name_width(expenses) && length(expenses[i].amount) <= amount_width(expenses) by {
        assert(names(expenses)[i] == expenses[i].name);
        assert(amounts(expenses)[i] == expenses[i].amount);
    }
}

} // verus!
