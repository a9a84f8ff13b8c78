//! Reading ledger lines.
//!
//! A ledger line holds a record where it has exactly one delimiter and the
//! text after the delimiter is a number. What is a number is for the
//! caller's reader to say. Lines that hold no record are passed over
//! without an error, so that a ledger with damaged lines still yields the
//! records of its sound ones, in their order.

use vstd::prelude::*;
use crate::expense::DELIMITER;
use crate::expense::Expense;
use crate::expense::ExpenseView;
use crate::expense::views;
use crate::text::length_covers_chars;
use crate::text::measure;

verus! {

/// How many delimiters `line` holds.
pub open spec fn delimiters(line: Seq<char>) -> nat
    decreases line.len(),
{
    if line.len() == 0 {
        0
    } else {
        delimiters(line.drop_last()) + if line.last() == DELIMITER { 1nat } else { 0nat }
    }
}

/// The two fields of a line with exactly one delimiter: what stands before
/// it and what stands after it. Any other line has no fields.
pub open spec fn fields(line: Seq<char>) -> Option<(Seq<char>, Seq<char>)> {
    if delimiters(line) == 1 {
        let at = line.index_of(DELIMITER);
        Some((line.take(at), line.skip(at + 1)))
    } else {
        None
    }
}

/// Counting one character further adds one where that character is the
/// delimiter.
proof fn delimiters_step(line: Seq<char>, n: int)
    requires
        0 <= n < line.len(),
    ensures
        delimiters(line.take(n + 1)) == delimiters(line.take(n)) + if line[n] == DELIMITER { 1nat } else { 0nat },
{
    assert(line.take(n + 1).drop_last() =~= line.take(n));
}

/// Cuts `line` at its delimiter: the name and the amount field of a line
/// that has exactly one delimiter, as they stand in the line; nothing for a
/// line that has none or several.
pub fn split_line(line: &str) -> (r: Option<(String, String)>)
    ensures
        match r {
            Some((name, amount)) => fields(line@) == Some((name@, amount@)),
            None => fields(line@) is None,
        },
{
    let bytes: usize = measure(line);
    proof {
        length_covers_chars(line@);
    }
    let mut seen: usize = 0;
    let mut found: usize = 0;
    let mut at: usize = 0;
    for c in it: line.chars()
        invariant
            it.seq() == line@,
            line@.len() <= bytes,
            seen == it.index(),
            found <= 2,
            found == 0 ==> delimiters(line@.take(seen as int)) == 0,
            found == 1 ==> delimiters(line@.take(seen as int)) == 1,
            found == 2 ==> delimiters(line@.take(seen as int)) >= 2,
            found == 0 ==> forall|i: int| 0 <= i < seen ==> line@[i] != DELIMITER,
            found == 1 ==> at < seen && line@[at as int] == DELIMITER,
            found == 1 ==> forall|i: int| 0 <= i < seen && line@[i] == DELIMITER ==> i == at,
    {
        proof {
            delimiters_step(line@, seen as int);
        }
        if c == DELIMITER {
            if found == 0 {
                at = seen;
            }
            if found < 2 {
                found = found + 1;
            }
        }
        seen = seen + 1;
    }
    assert(line@.take(seen as int) =~= line@);
    if found == 1 {
        let name = line.substring_char(0, at);
        let amount = line.substring_char(at + 1, seen);
        Some((String::from_str(name), String::from_str(amount)))
    } else {
        None
    }
}

/// What a line adds to the ledger, given what its amount field read as:
/// one expense where the line has two fields and the second read as a
/// number, nothing otherwise.
pub open spec fn entry(line: Seq<char>, amount: Option<Seq<char>>) -> Option<ExpenseView> {
    match (fields(line), amount) {
        (Some((name, _)), Some(amount)) => Some(ExpenseView { name, amount }),
        _ => None,
    }
}

/// The ledger that `lines` hold, given what each line's amount field read as.
pub open spec fn ledger(lines: Seq<Seq<char>>, amounts: Seq<Option<Seq<char>>>) -> Seq<ExpenseView>
    decreases lines.len(),
{
    if lines.len() == 0 {
        Seq::empty()
    } else {
        let rest = ledger(lines.drop_last(), amounts.drop_last());
        match entry(lines.last(), amounts.last()) {
            Some(expense) => rest.push(expense),
            None => rest,
        }
    }
}

/// An optional string as an optional text.
pub open spec fn text_of(answer: Option<String>) -> Option<Seq<char>> {
    match answer {
        Some(text) => Some(text@),
        None => None,
    }
}

/// Whether `read_amount`, asked about `text`, may answer `amount`.
pub open spec fn reads<F: Fn(&str) -> Option<String>>(
    read_amount: F,
    text: Seq<char>,
    amount: Option<Seq<char>>,
) -> bool {
    exists|asked: &str, answer: Option<String>|
        asked@ == text && call_ensures(read_amount, (asked,), answer) && amount == text_of(answer)
}

/// The texts of a slice of strings.
pub open spec fn texts(lines: Seq<String>) -> Seq<Seq<char>> {
    lines.map_values(|line: String| line@)
}

/// Whether `amounts` may be what `read_amount` made of the amount fields of
/// `lines`: an answer for each line that has two fields, nothing for the
/// others, which it was not asked about.
pub open spec fn read_from<F: Fn(&str) -> Option<String>>(
    read_amount: F,
    lines: Seq<Seq<char>>,
    amounts: Seq<Option<Seq<char>>>,
) -> bool {
    &&& amounts.len() == lines.len()
    &&& forall|i: int|
        0 <= i < lines.len() ==> match #[trigger] fields(lines[i]) {
            Some((_, text)) => reads(read_amount, text, amounts[i]),
            None => amounts[i] is None,
        }
}

/// Reads the ledger that `lines` hold: an expense for each line that has
/// exactly one delimiter and whose second field `read_amount` reads as a
/// number, in the order of the lines. Every other line is passed over.
///
/// `read_amount` says whether a text is a number, and answers with the
/// decimal text that the number is to be held and shown as. The ledger is
/// made of what it answered about the second field of each line that has
/// two fields.
pub fn parse_expenses<F: Fn(&str) -> Option<String>>(lines: &[String], read_amount: F) -> (expenses: Vec<
    Expense,
>)
    requires
        forall|text: &str| call_requires(read_amount, (text,)),
    ensures
        exists|amounts: Seq<Option<Seq<char>>>| #[trigger]
            read_from(read_amount, texts(lines@), amounts) && views(expenses@) == ledger(
                texts(lines@),
                amounts,
            ),
{
    let mut expenses: Vec<Expense> = Vec::new();
    let ghost mut amounts: Seq<Option<Seq<char>>> = Seq::empty();
    let mut i: usize = 0;
    while i < lines.len()
        invariant
            i <= lines@.len(),
            forall|text: &str| call_requires(read_amount, (text,)),
            read_from(read_amount, texts(lines@.take(i as int)), amounts),
            views(expenses@) == ledger(texts(lines@.take(i as int)), amounts),
        decreases lines@.len() - i,
    {
        let ghost before = amounts;
        let ghost mut read: Option<Seq<char>> = None;
        match split_line(lines[i].as_str()) {
            Some((name, text)) => {
                let answer = read_amount(text.as_str());
                proof {
                    read = text_of(answer);
                    assert(reads(read_amount, text@, read));
                }
                match answer {
                    Some(amount) => {
                        expenses.push(Expense { name, amount });
                    },
                    None => {},
                }
            },
            None => {},
        }
        proof {
            amounts = amounts.push(read);
            let done = texts(lines@.take(i as int + 1));
            assert(done.drop_last() =~= texts(lines@.take(i as int)));
            assert(amounts.drop_last() =~= before);
            assert(done.last() == lines@[i as int]@);
            assert forall|j: int| 0 <= j < done.len() implies match #[trigger] fields(done[j]) {
                Some((_, text)) => reads(read_amount, text, amounts[j]),
                None => amounts[j] is None,
            } by {
                if j < i {
                    assert(done[j] == texts(lines@.take(i as int))[j]);
                    assert(amounts[j] == before[j]);
                }
            }
        }
        i = i + 1;
    }
    proof {
        assert(lines@.take(i as int) =~= lines@);
    }
    expenses
}

/// Delimiters are counted piece by piece.
pub proof fn delimiters_add(front: Seq<char>, back: Seq<char>)
    ensures
        delimiters(front + back) == delimiters(front) + delimiters(back),
    decreases back.len(),
{
    if back.len() == 0 {
        assert(front + back =~= front);
    } else {
        assert((front + back).drop_last() =~= front + back.drop_last());
        delimiters_add(front, back.drop_last());
    }
}

/// A single character counts as one delimiter where it is the delimiter.
proof fn delimiters_one(c: char)
    ensures
        delimiters(seq![c]) == if c == DELIMITER { 1nat } else { 0nat },
{
    assert(seq![c].drop_last() =~= Seq::<char>::empty());
    assert(delimiters(seq![c].drop_last()) == 0);
}

/// A text counts no delimiter exactly when it holds none.
pub proof fn delimiters_none(text: Seq<char>)
    ensures
        delimiters(text) == 0 <==> !text.contains(DELIMITER),
    decreases text.len(),
{
    if text.len() > 0 {
        delimiters_none(text.drop_last());
        if text.drop_last().contains(DELIMITER) {
            let i = text.drop_last().index_of(DELIMITER);
            assert(text[i] == DELIMITER);
        }
        if text.contains(DELIMITER) && text.last() != DELIMITER {
            let i = text.index_of(DELIMITER);
            assert(text.drop_last()[i] == DELIMITER);
        }
    }
}

/// A line with exactly one delimiter is its first field, the delimiter and
/// its second field, and neither field holds a delimiter.
pub proof fn fields_of_record_line(line: Seq<char>)
    requires
        delimiters(line) == 1,
    ensures
        fields(line) matches Some((name, amount)) && line == name + seq![DELIMITER] + amount
            && !name.contains(DELIMITER) && !amount.contains(DELIMITER),
{
    delimiters_none(line);
    let at = line.index_of(DELIMITER);
    let name = line.take(at);
    let amount = line.skip(at + 1);
    assert(line =~= name + seq![DELIMITER] + amount);
    delimiters_add(name + seq![DELIMITER], amount);
    delimiters_add(name, seq![DELIMITER]);
    delimiters_one(DELIMITER);
    delimiters_none(name);
    delimiters_none(amount);
}

/// Fields that hold no delimiter, joined by one, are read back as they were.
pub proof fn fields_of_joined(name: Seq<char>, amount: Seq<char>)
    requires
        !name.contains(DELIMITER),
        !amount.contains(DELIMITER),
    ensures
        delimiters(name + seq![DELIMITER] + amount) == 1,
        fields(name + seq![DELIMITER] + amount) == Some((name, amount)),
{
    let line = name + seq![DELIMITER] + amount;
    delimiters_add(name + seq![DELIMITER], amount);
    delimiters_add(name, seq![DELIMITER]);
    delimiters_one(DELIMITER);
    delimiters_none(name);
    delimiters_none(amount);
    assert(line[name.len() as int] == DELIMITER);
    let at = line.index_of(DELIMITER);
    if at < name.len() {
        assert(name[at] == DELIMITER);
    } else if at > name.len() {
        assert(amount[at - name.len() - 1] == DELIMITER);
    }
    assert(line.take(at) =~= name);
    assert(line.skip(at + 1) =~= amount);
}

/// The ledger of a single line is what the line adds.
pub proof fn ledger_of_line(line: Seq<char>, amount: Option<Seq<char>>)
    ensures
        ledger(seq![line], seq![amount]) == match entry(line, amount) {
            Some(expense) => seq![expense],
            None => Seq::empty(),
        },
{
    let lines = seq![line];
    let amounts = seq![amount];
    assert(lines.drop_last() =~= Seq::<Seq<char>>::empty());
    assert(lines.last() == line);
    assert(amounts.last() == amount);
    assert(ledger(lines.drop_last(), amounts.drop_last()) =~= Seq::<ExpenseView>::empty());
    match entry(line, amount) {
        Some(expense) => {
            assert(ledger(lines, amounts) =~= seq![expense]);
        },
        None => {},
    }
}

/// Writing an expense as a ledger line and reading the line back gives the
/// expense again, where its amount reads as itself and neither its name nor
/// its amount holds a delimiter.
pub proof fn line_round_trip(expense: ExpenseView)
    requires
        !expense.name.contains(DELIMITER),
        !expense.amount.contains(DELIMITER),
    ensures
        entry(expense.line(), Some(expense.amount)) == Some(expense),
        ledger(seq![expense.line()], seq![Some(expense.amount)]) == seq![expense],
{
    fields_of_joined(expense.name, expense.amount);
    ledger_of_line(expense.line(), Some(expense.amount));
}

/// The ledger of lines read one after the other is the ledger of the first
/// lines followed by the ledger of the rest: reading keeps the order of the
/// lines.
pub proof fn ledger_add(
    first: Seq<Seq<char>>,
    first_amounts: Seq<Option<Seq<char>>>,
    rest: Seq<Seq<char>>,
    rest_amounts: Seq<Option<Seq<char>>>,
)
    requires
        first.len() == first_amounts.len(),
        rest.len() == rest_amounts.len(),
    ensures
        ledger(first + rest, first_amounts + rest_amounts) == ledger(first, first_amounts) + ledger(
            rest,
            rest_amounts,
        ),
    decreases rest.len(),
{
    if rest.len() == 0 {
        assert(first + rest =~= first);
        assert(first_amounts + rest_amounts =~= first_amounts);
        assert(ledger(first, first_amounts) + ledger(rest, rest_amounts) =~= ledger(first, first_amounts));
    } else {
        assert((first + rest).drop_last() =~= first + rest.drop_last());
        assert((first_amounts + rest_amounts).drop_last() =~= first_amounts + rest_amounts.drop_last());
        ledger_add(first, first_amounts, rest.drop_last(), rest_amounts.drop_last());
        assert(ledger(first + rest, first_amounts + rest_amounts) =~= ledger(first, first_amounts)
            + ledger(rest, rest_amounts));
    }
}

/// Where every line has exactly one delimiter and an amount that read, the
/// ledger holds one expense per line, in the order of the lines: the name is
/// what stands before the delimiter, as it stands there, and the amount is
/// what the text after the delimiter read as.
pub proof fn ledger_of_record_lines(lines: Seq<Seq<char>>, amounts: Seq<Option<Seq<char>>>)
    requires
        lines.len() == amounts.len(),
        forall|i: int| 0 <= i < lines.len() ==> delimiters(#[trigger] lines[i]) == 1,
        forall|i: int| 0 <= i < lines.len() ==> (#[trigger] amounts[i]) is Some,
    ensures
        ledger(lines, amounts).len() == lines.len(),
        forall|i: int|
            0 <= i < lines.len() ==> {
                let expense = #[trigger] ledger(lines, amounts)[i];
                &&& fields(lines[i]) matches Some((name, text)) && name == expense.name && lines[i] == name
                    + seq![DELIMITER] + text
                &&& amounts[i] == Some(expense.amount)
            },
    decreases lines.len(),
{
    if lines.len() > 0 {
        let front = lines.drop_last();
        let front_amounts = amounts.drop_last();
        assert forall|i: int| 0 <= i < front.len() implies delimiters(#[trigger] front[i]) == 1 by {
            assert(front[i] == lines[i]);
        }
        assert forall|i: int| 0 <= i < front.len() implies (#[trigger] front_amounts[i]) is Some by {
            assert(front_amounts[i] == amounts[i]);
        }
        ledger_of_record_lines(front, front_amounts);
        assert(delimiters(lines.last()) == 1);
        assert(amounts.last() is Some);
        fields_of_record_line(lines.last());
        assert forall|i: int| 0 <= i < lines.len() implies {
            let expense = #[trigger] ledger(lines, amounts)[i];
            &&& fields(lines[i]) matches Some((name, text)) && name == expense.name && lines[i] == name
                + seq![DELIMITER] + text
            &&& amounts[i] == Some(expense.amount)
        } by {
            fields_of_record_line(lines[i]);
            if i < front.len() {
                assert(front[i] == lines[i]);
                assert(front_amounts[i] == amounts[i]);
                assert(ledger(lines, amounts)[i] == ledger(front, front_amounts)[i]);
            }
        }
    }
}

/// A line that has no delimiter or more than one, or whose amount did not
/// read, adds nothing: the ledger is that of the other lines.
pub proof fn ledger_skips_malformed(lines: Seq<Seq<char>>, amounts: Seq<Option<Seq<char>>>, at: int)
    requires
        lines.len() == amounts.len(),
        0 <= at < lines.len(),
        delimiters(lines[at]) != 1 || amounts[at] is None,
    ensures
        ledger(lines, amounts) == ledger(lines.remove(at), amounts.remove(at)),
{
    let front = lines.take(at);
    let front_amounts = amounts.take(at);
    let back = lines.skip(at + 1);
    let back_amounts = amounts.skip(at + 1);
    let one = seq![lines[at]];
    let one_amount = seq![amounts[at]];
    assert(lines =~= front + one + back);
    assert(amounts =~= front_amounts + one_amount + back_amounts);
    assert(lines.remove(at) =~= front + back);
    assert(amounts.remove(at) =~= front_amounts + back_amounts);
    ledger_add(front + one, front_amounts + one_amount, back, back_amounts);
    ledger_add(front, front_amounts, one, one_amount);
    ledger_add(front, front_amounts, back, back_amounts);
    ledger_of_line(lines[at], amounts[at]);
    assert(ledger(front, front_amounts) + ledger(one, one_amount) =~= ledger(front, front_amounts));
}

} // verus!
