//! What statements mean: how their text is put together from names, conditions and places for
//! values, and which rows meet the conditions.
use crate::sql::SqlView;
use vstd::prelude::*;

verus! {

/// A row of a table: what stands in its columns.
pub type Row = Map<Seq<char>, SqlView>;

/// How a condition compares a column with a value.
pub enum Sign {
    Is,
    Below,
    AtMost,
    Above,
    AtLeast,
}

pub open spec fn sign_text(sign: Sign) -> Seq<char> {
    match sign {
        Sign::Is => " = "@,
        Sign::Below => " < "@,
        Sign::AtMost => " <= "@,
        Sign::Above => " > "@,
        Sign::AtLeast => " >= "@,
    }
}

/// Whether a value stands to another as a sign says. Only integers are put in an order here.
pub open spec fn stands(held: SqlView, sign: Sign, given: SqlView) -> bool {
    match sign {
        Sign::Is => held == given,
        Sign::Below => held is Integer && given is Integer && held->Integer_0 < given->Integer_0,
        Sign::AtMost => held is Integer && given is Integer && held->Integer_0 <= given->Integer_0,
        Sign::Above => held is Integer && given is Integer && held->Integer_0 > given->Integer_0,
        Sign::AtLeast => held is Integer && given is Integer && held->Integer_0 >= given->Integer_0,
    }
}

/// What stands where a value is needed.
pub enum Operand {
    /// A value that goes with the statement, the next one in order.
    Given,
    /// A word between quotes.
    Word(Seq<char>),
    /// The number one.
    One,
    /// Nothing.
    Nothing,
}

pub open spec fn operand_text(operand: Operand) -> Seq<char> {
    match operand {
        Operand::Given => "?"@,
        Operand::Word(w) => "'"@ + w + "'"@,
        Operand::One => "1"@,
        Operand::Nothing => "NULL"@,
    }
}

/// The value of an operand, where that of the next one that is given is known.
pub open spec fn operand_value(operand: Operand, next: SqlView) -> SqlView {
    match operand {
        Operand::Given => next,
        Operand::Word(w) => SqlView::Text(w),
        Operand::One => SqlView::Integer(1),
        Operand::Nothing => SqlView::Null,
    }
}

/// Conditions that all have to be met.
pub enum Conditions {
    /// None: every row meets them.
    Always,
    /// Some, and one more on a column.
    And(Box<Conditions>, Seq<char>, Sign, Operand),
}

/// The conditions behind the name of a table.
pub open spec fn conditions_text(cs: Conditions) -> Seq<char>
    decreases cs,
{
    match cs {
        Conditions::Always => ""@,
        Conditions::And(rest, column, sign, operand) => conditions_text(*rest) + (if *rest
            is Always {
            " WHERE "@
        } else {
            " AND "@
        }) + column + sign_text(sign) + operand_text(operand),
    }
}

/// The number of values that conditions take from those that are given.
pub open spec fn values_taken(cs: Conditions) -> nat
    decreases cs,
{
    match cs {
        Conditions::Always => 0,
        Conditions::And(rest, _, _, operand) => values_taken(*rest) + if operand is Given {
            1nat
        } else {
            0nat
        },
    }
}

/// Whether a row meets conditions, the values of which stand from a place on among those that are
/// given.
pub open spec fn is_met(cs: Conditions, given: Seq<SqlView>, from: int, row: Row) -> bool
    decreases cs,
{
    match cs {
        Conditions::Always => true,
        Conditions::And(rest, column, sign, operand) => {
            &&& is_met(*rest, given, from, row)
            &&& stands(
                row[column],
                sign,
                operand_value(operand, given[from + values_taken(*rest)]),
            )
        },
    }
}

/// One condition.
pub open spec fn only(column: Seq<char>, sign: Sign) -> Conditions {
    Conditions::And(Box::new(Conditions::Always), column, sign, Operand::Given)
}

impl Conditions {
    /// These conditions and one more, for which a value is given.
    pub open spec fn and(self, column: Seq<char>, sign: Sign) -> Conditions {
        Conditions::And(Box::new(self), column, sign, Operand::Given)
    }

    /// These conditions, and that a column holds a word.
    pub open spec fn and_word(self, column: Seq<char>, word: Seq<char>) -> Conditions {
        Conditions::And(Box::new(self), column, Sign::Is, Operand::Word(word))
    }

    /// These conditions, and that a column holds the number one.
    pub open spec fn and_one(self, column: Seq<char>) -> Conditions {
        Conditions::And(Box::new(self), column, Sign::Is, Operand::One)
    }
}

/// Names of columns, or whatever else is listed, with commas between them.
pub enum Listed {
    Only(Seq<char>),
    And(Box<Listed>, Seq<char>),
}

pub open spec fn listed_text(names: Listed) -> Seq<char>
    decreases names,
{
    match names {
        Listed::Only(name) => name,
        Listed::And(rest, name) => listed_text(*rest) + ", "@ + name,
    }
}

impl Listed {
    pub open spec fn and(self, name: Seq<char>) -> Listed {
        Listed::And(Box::new(self), name)
    }
}

/// The text that reads columns of those rows of a table that meet conditions.
pub open spec fn reading_text(columns: Listed, table: Seq<char>, cs: Conditions) -> Seq<char> {
    "SELECT "@ + listed_text(columns) + " FROM "@ + table + conditions_text(cs)
}

/// The text that takes those rows of a table away that meet conditions.
pub open spec fn removal_text(table: Seq<char>, cs: Conditions) -> Seq<char> {
    "DELETE FROM "@ + table + conditions_text(cs)
}

/// What is put into columns of a row.
pub enum Fields {
    Only(Seq<char>, Operand),
    And(Box<Fields>, Seq<char>, Operand),
}

impl Fields {
    pub open spec fn and(self, column: Seq<char>, operand: Operand) -> Fields {
        Fields::And(Box::new(self), column, operand)
    }
}

/// The names of the columns, with commas between them.
pub open spec fn columns_text(fields: Fields) -> Seq<char>
    decreases fields,
{
    match fields {
        Fields::Only(column, _) => column,
        Fields::And(rest, column, _) => columns_text(*rest) + ", "@ + column,
    }
}

/// What is put into the columns, with commas between.
pub open spec fn values_text(fields: Fields) -> Seq<char>
    decreases fields,
{
    match fields {
        Fields::Only(_, operand) => operand_text(operand),
        Fields::And(rest, _, operand) => values_text(*rest) + ", "@ + operand_text(operand),
    }
}

/// What is put into which column, with commas between.
pub open spec fn settings_text(fields: Fields) -> Seq<char>
    decreases fields,
{
    match fields {
        Fields::Only(column, operand) => column + " = "@ + operand_text(operand),
        Fields::And(rest, column, operand) => settings_text(*rest) + ", "@ + column + " = "@
            + operand_text(operand),
    }
}

/// The number of values that fields take from those that are given.
pub open spec fn values_put(fields: Fields) -> nat
    decreases fields,
{
    match fields {
        Fields::Only(_, operand) => if operand is Given {
            1nat
        } else {
            0nat
        },
        Fields::And(rest, _, operand) => values_put(*rest) + if operand is Given {
            1nat
        } else {
            0nat
        },
    }
}

/// Whether a value is put into a column, where those that are given are known.
pub open spec fn puts(fields: Fields, given: Seq<SqlView>, column: Seq<char>, value: SqlView) -> bool
    decreases fields,
{
    match fields {
        Fields::Only(c, operand) => c == column && value == operand_value(operand, given[0]),
        Fields::And(rest, c, operand) => {
            ||| c == column && value == operand_value(operand, given[values_put(*rest) as int])
            ||| puts(*rest, given, column, value)
        },
    }
}

/// The text that adds a row to a table, with what it begins with.
pub open spec fn addition_text(verb: Seq<char>, table: Seq<char>, fields: Fields) -> Seq<char> {
    verb + table + " ("@ + columns_text(fields) + ") VALUES ("@ + values_text(fields) + ")"@
}

/// The text that puts something else into columns of those rows of a table that meet conditions.
pub open spec fn change_text(table: Seq<char>, fields: Fields, cs: Conditions) -> Seq<char> {
    "UPDATE "@ + table + " SET "@ + settings_text(fields) + conditions_text(cs)
}

}
