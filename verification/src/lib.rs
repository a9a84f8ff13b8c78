//! An expense ledger: named amounts kept one per line in a flat text file,
//! read leniently and rendered as an aligned, bordered table.
//!
//! Amounts are carried as their decimal text. Reading a number out of text
//! and adding numbers up is left to the caller; everything else — which
//! lines count as records, how wide the columns are, how each cell is
//! padded, what the table looks like — is decided and proved here.

pub mod error;
pub mod expense;
pub mod parse;
pub mod render;
pub mod text;

pub use error::ExpenseError;
pub use expense::Expense;
pub use parse::parse_expenses;
pub use parse::split_line;
pub use render::find_longest_expense_amount;
pub use render::find_longest_expense_name;
pub use render::pad_expenses;
pub use render::render_expense_summary;
pub use render::render_expense_table;
pub use render::render_header;
pub use render::render_spacer;
pub use render::PaddedExpense;
