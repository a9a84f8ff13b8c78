//! The ledger's record.

use vstd::prelude::*;

verus! {

/// The character that parts a record's name from its amount in a ledger line.
pub const DELIMITER: char = ',';

/// One ledger entry: what the money went to, and how much.
///
/// The amount is held as its decimal text, the same text that a ledger line
/// and a table cell show. Two expenses are equal when their names and their
/// amount texts are.
#[derive(Debug, Clone, PartialEq, Eq)]
pub struct Expense {
    pub name: String,
    pub amount: String,
}

/// An expense as plain text values.
pub struct ExpenseView {
    pub name: Seq<char>,
    pub amount: Seq<char>,
}

impl View for Expense {
    type V = ExpenseView;

    open spec fn view(&self) -> ExpenseView {
        ExpenseView { name: self.name@, amount: self.amount@ }
    }
}

/// The views of a sequence of expenses.
pub open spec fn views(expenses: Seq<Expense>) -> Seq<ExpenseView> {
    expenses.map_values(|expense: Expense| expense@)
}

impl ExpenseView {
    /// The ledger line of this expense: name, delimiter, amount.
    pub open spec fn line(self) -> Seq<char> {
        self.name + seq![DELIMITER] + self.amount
    }
}

impl Expense {
    /// The ledger line of this expense, without a line end.
    pub fn to_string(&self) -> (line: String)
        ensures
            line@ == self@.line(),
    {
        proof {
            reveal_strlit(",");
        }
        let mut line = self.name.clone();
        line.append(",");
        line.append(self.amount.as_str());
        assert(","@ =~= seq![DELIMITER]);
        line
    }
}

} // verus!
