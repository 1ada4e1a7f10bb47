//! How the statements of this library read: the text of an update, a deletion or an insertion, and
//! what it does to a row.

use crate::journal::RepairSqlValueView;
use crate::statements;
use crate::statements::StatementView;
use crate::text;
use vstd::prelude::*;

verus! {

/// A row of a table, by column.
pub type RowView = Map<Seq<char>, RepairSqlValueView>;

/// An assignment of an update.
#[verifier::ext_equal]
pub enum Assignment {
    /// The column gets the value.
    Put { column: Seq<char>, value: RepairSqlValueView },
    /// The column gets a value where it holds another.
    Swap { column: Seq<char>, from: RepairSqlValueView, to: RepairSqlValueView },
}

/// A condition on a row.
#[verifier::ext_equal]
pub enum Condition {
    /// The column equals the value; nothing equals null.
    Equals { column: Seq<char>, value: RepairSqlValueView },
    /// The column is the value, which may be null.
    Is { column: Seq<char>, value: RepairSqlValueView },
    /// The column equals the value, where null counts as something else, which is written so.
    Coalesced {
        column: Seq<char>,
        written: Seq<char>,
        fallback: RepairSqlValueView,
        value: RepairSqlValueView,
    },
    /// The column equals a value that stands in the text.
    Written { column: Seq<char>, written: Seq<char>, value: RepairSqlValueView },
}

/// A value of a new row: one that is bound, or one that stands in the text.
#[verifier::ext_equal]
pub enum Cell {
    Bound(RepairSqlValueView),
    Written { written: Seq<char>, value: RepairSqlValueView },
}

/// What a statement says.
#[verifier::ext_equal]
pub enum Command {
    Update {
        table: Seq<char>,
        /// How columns are written: in quotes or not.
        quoted: bool,
        /// How an equals sign is written.
        equals: Seq<char>,
        sets: Seq<Assignment>,
        conditions: Seq<Condition>,
    },
    Delete { table: Seq<char>, conditions: Seq<Condition> },
    Insert {
        table: Seq<char>,
        quoted: bool,
        /// A row that is there already is left as it is.
        or_ignore: bool,
        columns: Seq<Seq<char>>,
        cells: Seq<Cell>,
    },
}

/// A placeholder: a question mark and its number.
pub open spec fn mark(number: nat) -> Seq<char> {
    "?"@ + text::decimal_text(number)
}

/// A column as it is written.
pub open spec fn column_text(column: Seq<char>, quoted: bool) -> Seq<char> {
    if quoted {
        statements::quoted(column)
    } else {
        column
    }
}

/// The values that an assignment binds.
pub open spec fn set_values(set: Assignment) -> Seq<RepairSqlValueView> {
    match set {
        Assignment::Put { value, .. } => seq![value],
        Assignment::Swap { from, to, .. } => seq![from, to],
    }
}

/// An assignment as it is written, with placeholders from a number on.
pub open spec fn set_text(set: Assignment, quoted: bool, equals: Seq<char>, number: nat) -> Seq<
    char,
> {
    match set {
        Assignment::Put { column, .. } => column_text(column, quoted) + equals + mark(number),
        Assignment::Swap { column, .. } => {
            let column = column_text(column, quoted);
            column + equals + "CASE WHEN "@ + column + equals + mark(number) + " THEN "@ + mark(
                number + 1,
            ) + " ELSE "@ + column + " END"@
        },
    }
}

/// The values that assignments bind, in their order.
pub open spec fn sets_values(sets: Seq<Assignment>) -> Seq<RepairSqlValueView>
    decreases sets.len(),
{
    if sets.len() == 0 {
        Seq::empty()
    } else {
        sets_values(sets.drop_last()) + set_values(sets.last())
    }
}

/// Assignments as they are written.
pub open spec fn sets_text(sets: Seq<Assignment>, quoted: bool, equals: Seq<char>) -> Seq<char>
    decreases sets.len(),
{
    if sets.len() == 0 {
        Seq::empty()
    } else {
        let front = sets.drop_last();
        let last = set_text(sets.last(), quoted, equals, sets_values(front).len() + 1);
        if front.len() == 0 {
            last
        } else {
            sets_text(front, quoted, equals) + ", "@ + last
        }
    }
}

/// The values that a condition binds.
pub open spec fn condition_values(condition: Condition) -> Seq<RepairSqlValueView> {
    match condition {
        Condition::Equals { value, .. } => seq![value],
        Condition::Is { value, .. } => seq![value],
        Condition::Coalesced { value, .. } => seq![value],
        Condition::Written { .. } => Seq::empty(),
    }
}

/// A condition as it is written.
pub open spec fn condition_text(condition: Condition, equals: Seq<char>, number: nat) -> Seq<char> {
    match condition {
        Condition::Equals { column, .. } => column + equals + mark(number),
        Condition::Is { column, .. } => column + " IS "@ + mark(number),
        Condition::Coalesced { column, written, .. } => "COALESCE("@ + column + ", "@ + written
            + ")"@ + equals + mark(number),
        Condition::Written { column, written, .. } => column + equals + written,
    }
}

/// The values that conditions bind, in their order.
pub open spec fn conditions_values(conditions: Seq<Condition>) -> Seq<RepairSqlValueView>
    decreases conditions.len(),
{
    if conditions.len() == 0 {
        Seq::empty()
    } else {
        conditions_values(conditions.drop_last()) + condition_values(conditions.last())
    }
}

/// Conditions as they are written, with placeholders after so many others.
pub open spec fn conditions_text(conditions: Seq<Condition>, equals: Seq<char>, after: nat) -> Seq<
    char,
>
    decreases conditions.len(),
{
    if conditions.len() == 0 {
        Seq::empty()
    } else {
        let front = conditions.drop_last();
        let last = condition_text(
            conditions.last(),
            equals,
            after + conditions_values(front).len() + 1,
        );
        if front.len() == 0 {
            last
        } else {
            conditions_text(front, equals, after) + " AND "@ + last
        }
    }
}

/// The values that cells bind, in their order.
pub open spec fn cells_values(cells: Seq<Cell>) -> Seq<RepairSqlValueView>
    decreases cells.len(),
{
    if cells.len() == 0 {
        Seq::empty()
    } else {
        match cells.last() {
            Cell::Bound(value) => cells_values(cells.drop_last()).push(value),
            Cell::Written { .. } => cells_values(cells.drop_last()),
        }
    }
}

/// Cells as they are written.
pub open spec fn cells_text(cells: Seq<Cell>) -> Seq<char>
    decreases cells.len(),
{
    if cells.len() == 0 {
        Seq::empty()
    } else {
        let front = cells.drop_last();
        let last = match cells.last() {
            Cell::Bound(_) => mark(cells_values(front).len() + 1),
            Cell::Written { written, .. } => written,
        };
        if front.len() == 0 {
            last
        } else {
            cells_text(front) + ", "@ + last
        }
    }
}

/// Columns as they are written.
pub open spec fn columns_text(columns: Seq<Seq<char>>, quoted: bool) -> Seq<char>
    decreases columns.len(),
{
    if columns.len() == 0 {
        Seq::empty()
    } else {
        let front = columns.drop_last();
        let last = column_text(columns.last(), quoted);
        if front.len() == 0 {
            last
        } else {
            columns_text(front, quoted) + ", "@ + last
        }
    }
}

/// The statement that says a command.
pub open spec fn spelled(command: Command) -> StatementView {
    match command {
        Command::Update { table, quoted, equals, sets, conditions } => StatementView {
            sql: "UPDATE "@ + table + " SET "@ + sets_text(sets, quoted, equals) + " WHERE "@
                + conditions_text(conditions, equals, sets_values(sets).len()),
            values: sets_values(sets) + conditions_values(conditions),
        },
        Command::Delete { table, conditions } => StatementView {
            sql: "DELETE FROM "@ + table + " WHERE "@ + conditions_text(conditions, "="@, 0),
            values: conditions_values(conditions),
        },
        Command::Insert { table, quoted, or_ignore, columns, cells } => StatementView {
            sql: (if or_ignore {
                "INSERT OR IGNORE INTO "@
            } else {
                "INSERT INTO "@
            }) + table + " ("@ + columns_text(columns, quoted) + ") VALUES ("@ + cells_text(cells)
                + ")"@,
            values: cells_values(cells),
        },
    }
}

/// The table that a command is about.
pub open spec fn table_of(command: Command) -> Seq<char> {
    match command {
        Command::Update { table, .. } => table,
        Command::Delete { table, .. } => table,
        Command::Insert { table, .. } => table,
    }
}

/// The row holds the value in the column.
pub open spec fn holds(row: RowView, column: Seq<char>, value: RepairSqlValueView) -> bool {
    row.dom().contains(column) && row[column] == value
}

/// A row meets a condition.
pub open spec fn meets(row: RowView, condition: Condition) -> bool {
    match condition {
        Condition::Equals { column, value } => holds(row, column, value) && !(value is Null),
        Condition::Is { column, value } => holds(row, column, value),
        Condition::Coalesced { column, fallback, value, .. } => row.dom().contains(column) && (
        if row[column] is Null {
            fallback
        } else {
            row[column]
        }) == value && !(value is Null),
        Condition::Written { column, value, .. } => holds(row, column, value),
    }
}

/// A row meets every condition.
pub open spec fn meets_all(row: RowView, conditions: Seq<Condition>) -> bool
    decreases conditions.len(),
{
    conditions.len() == 0 || (meets_all(row, conditions.drop_last()) && meets(
        row,
        conditions.last(),
    ))
}

/// A row after an assignment; `row` is the row before the statement, `so_far` what it has become.
pub open spec fn set_in(row: RowView, so_far: RowView, set: Assignment) -> RowView {
    match set {
        Assignment::Put { column, value } => so_far.insert(column, value),
        Assignment::Swap { column, from, to } => if holds(row, column, from) && !(from is Null) {
            so_far.insert(column, to)
        } else {
            so_far
        },
    }
}

/// A row after assignments.
pub open spec fn sets_in(row: RowView, sets: Seq<Assignment>) -> RowView
    decreases sets.len(),
{
    if sets.len() == 0 {
        row
    } else {
        set_in(row, sets_in(row, sets.drop_last()), sets.last())
    }
}

/// The value of a cell.
pub open spec fn cell_value(cell: Cell) -> RepairSqlValueView {
    match cell {
        Cell::Bound(value) => value,
        Cell::Written { value, .. } => value,
    }
}

/// The row that columns and cells make.
pub open spec fn made_row(columns: Seq<Seq<char>>, cells: Seq<Cell>) -> RowView
    decreases columns.len(),
{
    if columns.len() == 0 || columns.len() != cells.len() {
        Map::empty()
    } else {
        made_row(columns.drop_last(), cells.drop_last()).insert(
            columns.last(),
            cell_value(cells.last()),
        )
    }
}

/// What a command makes of a row of its table, or of there being none.
pub open spec fn run(command: Command, row: Option<RowView>) -> Option<RowView> {
    match (command, row) {
        (Command::Update { sets, conditions, .. }, Some(row)) => if meets_all(row, conditions) {
            Some(sets_in(row, sets))
        } else {
            Some(row)
        },
        (Command::Delete { conditions, .. }, Some(row)) => if meets_all(row, conditions) {
            None
        } else {
            Some(row)
        },
        (Command::Insert { columns, cells, .. }, None) => Some(made_row(columns, cells)),
        _ => row,
    }
}

/// A statement, read as SQL, makes `after` of `before` in a table.
pub open spec fn makes(
    statement: StatementView,
    table: Seq<char>,
    before: Option<RowView>,
    after: Option<RowView>,
) -> bool {
    exists|command: Command| #[trigger]
        spelled(command) == statement && table_of(command) == table && run(command, before)
            == after
}

/// One part of a text after another.
pub proof fn lemma_extended(whole: Seq<char>, start: int, front: Seq<char>, more: Seq<char>)
    requires
        0 <= start,
        start + front.len() + more.len() <= whole.len(),
        front == whole.subrange(start, start + front.len()),
        more == whole.subrange(start + front.len(), start + front.len() + more.len()),
    ensures
        front + more == whole.subrange(start, start + (front + more).len()),
{
    assert(front + more =~= whole.subrange(start, start + (front + more).len()));
}

/// The placeholders that occur.
pub proof fn lemma_marks()
    ensures
        mark(1) == seq!['?', '1'],
        mark(2) == seq!['?', '2'],
        mark(3) == seq!['?', '3'],
        mark(4) == seq!['?', '4'],
        mark(5) == seq!['?', '5'],
        mark(6) == seq!['?', '6'],
        mark(7) == seq!['?', '7'],
        mark(8) == seq!['?', '8'],
        mark(9) == seq!['?', '9'],
        mark(10) == seq!['?', '1', '0'],
        mark(11) == seq!['?', '1', '1'],
        mark(12) == seq!['?', '1', '2'],
{
    reveal_strlit("?");
    reveal_with_fuel(text::decimal_text, 2);
    assert(mark(1) =~= seq!['?', '1']);
    assert(mark(2) =~= seq!['?', '2']);
    assert(mark(3) =~= seq!['?', '3']);
    assert(mark(4) =~= seq!['?', '4']);
    assert(mark(5) =~= seq!['?', '5']);
    assert(mark(6) =~= seq!['?', '6']);
    assert(mark(7) =~= seq!['?', '7']);
    assert(mark(8) =~= seq!['?', '8']);
    assert(mark(9) =~= seq!['?', '9']);
    assert(mark(10) =~= seq!['?', '1', '0']);
    assert(mark(11) =~= seq!['?', '1', '1']);
    assert(mark(12) =~= seq!['?', '1', '2']);
}

/// Assignments with one more.
pub proof fn lemma_one_set_more(sets: Seq<Assignment>, set: Assignment, quoted: bool, equals: Seq<char>)
    ensures
        sets_values(sets.push(set)) == sets_values(sets) + set_values(set),
        sets_text(sets.push(set), quoted, equals) == if sets.len() == 0 {
            set_text(set, quoted, equals, sets_values(sets).len() + 1)
        } else {
            sets_text(sets, quoted, equals) + ", "@ + set_text(
                set,
                quoted,
                equals,
                sets_values(sets).len() + 1,
            )
        },
        forall|row: RowView| #[trigger]
            sets_in(row, sets.push(set)) == set_in(row, sets_in(row, sets), set),
{
    assert(sets.push(set).drop_last() =~= sets);
}

/// Conditions with one more.
pub proof fn lemma_one_condition_more(
    conditions: Seq<Condition>,
    condition: Condition,
    equals: Seq<char>,
    after: nat,
)
    ensures
        conditions_values(conditions.push(condition)) == conditions_values(conditions)
            + condition_values(condition),
        conditions_text(conditions.push(condition), equals, after) == if conditions.len() == 0 {
            condition_text(
                condition,
                equals,
                after + conditions_values(conditions).len() + 1,
            )
        } else {
            conditions_text(conditions, equals, after) + " AND "@ + condition_text(
                condition,
                equals,
                after + conditions_values(conditions).len() + 1,
            )
        },
        forall|row: RowView| #[trigger]
            meets_all(row, conditions.push(condition)) <==> meets_all(row, conditions) && meets(
                row,
                condition,
            ),
{
    assert(conditions.push(condition).drop_last() =~= conditions);
}

/// Columns and cells with one more.
pub proof fn lemma_one_cell_more(
    columns: Seq<Seq<char>>,
    cells: Seq<Cell>,
    column: Seq<char>,
    cell: Cell,
    quoted: bool,
)
    requires
        columns.len() == cells.len(),
    ensures
        cells_values(cells.push(cell)) == match cell {
            Cell::Bound(value) => cells_values(cells).push(value),
            Cell::Written { .. } => cells_values(cells),
        },
        columns_text(columns.push(column), quoted) == if columns.len() == 0 {
            column_text(column, quoted)
        } else {
            columns_text(columns, quoted) + ", "@ + column_text(column, quoted)
        },
        cells_text(cells.push(cell)) == ({
            let last = match cell {
                Cell::Bound(_) => mark(cells_values(cells).len() + 1),
                Cell::Written { written, .. } => written,
            };
            if cells.len() == 0 {
                last
            } else {
                cells_text(cells) + ", "@ + last
            }
        }),
        made_row(columns.push(column), cells.push(cell)) == made_row(columns, cells).insert(
            column,
            cell_value(cell),
        ),
{
    assert(columns.push(column).drop_last() =~= columns);
    assert(cells.push(cell).drop_last() =~= cells);
}

} // verus!
