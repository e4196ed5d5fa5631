//! Conditions against rows: which rows a condition keeps.
//!
//! A value is compared according to its kind. An integer is compared with the
//! literal read as an integer, a text with the literal as it stands, a double
//! with the literal read as a double. Null meets only an equality with the
//! bare word `NULL`; a blob meets nothing.
//!
//! Doubles are held as their 64 bits throughout. Reading a literal as a
//! double is left to the caller, who hands the bits in.

use vstd::prelude::*;
use crate::decimal::{i64_of, read_i64};
use crate::sql::{Condition, ConditionView, Operator};
use crate::tables::{column_named, columns_view, find_column, Column, ColumnView};
use crate::text::{chars_of, compare, order_of, same_text, Order};
use crate::value::{row_view, Value, ValueView};

verus! {

/// The literal values of one condition read as doubles: the 64 bits of each,
/// or `None` where the literal writes no double. `second` is the upper value
/// of a `Between`.
#[derive(Debug, Clone, Copy, PartialEq, Eq)]
pub struct DoubleLiterals {
    pub first: Option<u64>,
    pub second: Option<u64>,
}

/// Whether the bits are those of a double that is not a number: all exponent
/// bits set and a fraction that is not zero.
pub open spec fn is_nan(bits: u64) -> bool {
    (bits >> 52) & 0x7ff == 0x7ff && bits & 0xf_ffff_ffff_ffff != 0
}

/// A whole number by which doubles that are numbers are ordered: the bits
/// without the sign, negated where the sign is set. Both zeros give zero.
pub open spec fn double_key(bits: u64) -> int {
    if bits >> 63 == 1 {
        -((bits & 0x7fff_ffff_ffff_ffff) as int)
    } else {
        (bits & 0x7fff_ffff_ffff_ffff) as int
    }
}

/// The order of two whole numbers.
pub open spec fn int_order(a: int, b: int) -> Order {
    if a < b {
        Order::Less
    } else if a > b {
        Order::Greater
    } else {
        Order::Equal
    }
}

/// The order of two doubles, given by their bits; none where one of them is
/// not a number.
pub open spec fn double_order(a: u64, b: u64) -> Option<Order> {
    if is_nan(a) || is_nan(b) {
        None
    } else {
        Some(int_order(double_key(a), double_key(b)))
    }
}

/// Whether an operator holds of two things that stand in the given order.
pub open spec fn holds(op: Operator, order: Order) -> bool {
    match op {
        Operator::Eq => order == Order::Equal,
        Operator::Ne => order != Order::Equal,
        Operator::Greater => order == Order::Greater,
        Operator::GreaterEq => order != Order::Less,
        Operator::Less => order == Order::Less,
        Operator::LessEq => order != Order::Greater,
        Operator::Between => false,
    }
}

/// Whether an operator holds between a value and a literal. `double` is the
/// literal read as a double.
pub open spec fn meets(op: Operator, value: ValueView, literal: Seq<char>, double: Option<u64>)
    -> bool {
    match value {
        ValueView::Null => op == Operator::Eq && literal == "NULL"@,
        ValueView::Integer(n) => match i64_of(literal) {
            None => false,
            Some(v) => holds(op, int_order(n as int, v as int)),
        },
        ValueView::Float(bits) => match double {
            None => false,
            Some(other) => match double_order(bits, other) {
                None => op == Operator::Ne,
                Some(order) => holds(op, order),
            },
        },
        ValueView::Blob(_) => false,
        ValueView::Text(t) => holds(op, order_of(t, literal)),
    }
}

impl ConditionView {
    /// Whether a value meets the condition.
    pub open spec fn admits(self, value: ValueView, doubles: DoubleLiterals) -> bool {
        match self {
            ConditionView::Eq(_, v) => meets(Operator::Eq, value, v, doubles.first),
            ConditionView::Greater(_, v) => meets(Operator::Greater, value, v, doubles.first),
            ConditionView::GreaterEq(_, v) => meets(Operator::GreaterEq, value, v, doubles.first),
            ConditionView::Less(_, v) => meets(Operator::Less, value, v, doubles.first),
            ConditionView::LessEq(_, v) => meets(Operator::LessEq, value, v, doubles.first),
            ConditionView::Ne(_, v) => meets(Operator::Ne, value, v, doubles.first),
            ConditionView::Between(_, from, to) => meets(
                Operator::GreaterEq,
                value,
                from,
                doubles.first,
            ) && meets(Operator::LessEq, value, to, doubles.second),
        }
    }

    /// Whether a row meets the condition: the table has a column of the
    /// condition's name, the row has a value at the column's place, and that
    /// value meets the condition.
    pub open spec fn eval(
        self,
        row: Seq<ValueView>,
        columns: Seq<ColumnView>,
        doubles: DoubleLiterals,
    ) -> bool {
        match column_named(columns, self.column()) {
            None => false,
            Some(column) => column.idx < row.len() && self.admits(row[column.idx as int], doubles),
        }
    }
}

/// Whether an operator holds of two things that stand in the given order.
pub fn order_holds(op: Operator, order: Order) -> (r: bool)
    ensures
        r == holds(op, order),
{
    match op {
        Operator::Eq => match order {
            Order::Equal => true,
            _ => false,
        },
        Operator::Ne => match order {
            Order::Equal => false,
            _ => true,
        },
        Operator::Greater => match order {
            Order::Greater => true,
            _ => false,
        },
        Operator::GreaterEq => match order {
            Order::Less => false,
            _ => true,
        },
        Operator::Less => match order {
            Order::Less => true,
            _ => false,
        },
        Operator::LessEq => match order {
            Order::Greater => false,
            _ => true,
        },
        Operator::Between => false,
    }
}

/// Compares two doubles given by their bits.
pub fn compare_doubles(a: u64, b: u64) -> (r: Option<Order>)
    ensures
        r == double_order(a, b),
{
    let a_nan = (a >> 52) & 0x7ff == 0x7ff && a & 0xf_ffff_ffff_ffff != 0;
    let b_nan = (b >> 52) & 0x7ff == 0x7ff && b & 0xf_ffff_ffff_ffff != 0;
    if a_nan || b_nan {
        return None;
    }
    let a_size: u64 = a & 0x7fff_ffff_ffff_ffff;
    let b_size: u64 = b & 0x7fff_ffff_ffff_ffff;
    assert(a & 0x7fff_ffff_ffff_ffff <= 0x7fff_ffff_ffff_ffff) by (bit_vector);
    assert(b & 0x7fff_ffff_ffff_ffff <= 0x7fff_ffff_ffff_ffff) by (bit_vector);
    let a_key: i64 = if a >> 63 == 1 {
        -(a_size as i64)
    } else {
        a_size as i64
    };
    let b_key: i64 = if b >> 63 == 1 {
        -(b_size as i64)
    } else {
        b_size as i64
    };
    if a_key < b_key {
        Some(Order::Less)
    } else if a_key > b_key {
        Some(Order::Greater)
    } else {
        Some(Order::Equal)
    }
}

/// Whether an operator holds between a value and a literal.
pub fn value_meets(op: Operator, value: &Value, literal: &str, double: Option<u64>) -> (r: bool)
    ensures
        r == meets(op, value@, literal@, double),
{
    match value {
        Value::Null => match op {
            Operator::Eq => same_text(literal, "NULL"),
            _ => false,
        },
        Value::Integer(n) => {
            let chars = chars_of(literal);
            match read_i64(chars.as_slice()) {
                None => false,
                Some(v) => {
                    let order = if *n < v {
                        Order::Less
                    } else if *n > v {
                        Order::Greater
                    } else {
                        Order::Equal
                    };
                    order_holds(op, order)
                },
            }
        },
        Value::Float(bits) => match double {
            None => false,
            Some(other) => match compare_doubles(*bits, other) {
                None => match op {
                    Operator::Ne => true,
                    _ => false,
                },
                Some(order) => order_holds(op, order),
            },
        },
        Value::Blob(_) => false,
        Value::Text(t) => order_holds(op, compare(t.as_str(), literal)),
    }
}

impl Condition {
    /// Whether a value meets the condition.
    pub fn admits(&self, value: &Value, doubles: &DoubleLiterals) -> (r: bool)
        ensures
            r == self@.admits(value@, *doubles),
    {
        match self {
            Condition::Eq(_, v) => value_meets(Operator::Eq, value, v.as_str(), doubles.first),
            Condition::Greater(_, v) => value_meets(
                Operator::Greater,
                value,
                v.as_str(),
                doubles.first,
            ),
            Condition::GreaterEq(_, v) => value_meets(
                Operator::GreaterEq,
                value,
                v.as_str(),
                doubles.first,
            ),
            Condition::Less(_, v) => value_meets(Operator::Less, value, v.as_str(), doubles.first),
            Condition::LessEq(_, v) => value_meets(
                Operator::LessEq,
                value,
                v.as_str(),
                doubles.first,
            ),
            Condition::Ne(_, v) => value_meets(Operator::Ne, value, v.as_str(), doubles.first),
            Condition::Between(_, from, to) => value_meets(
                Operator::GreaterEq,
                value,
                from.as_str(),
                doubles.first,
            ) && value_meets(Operator::LessEq, value, to.as_str(), doubles.second),
        }
    }

    /// Whether a row of a table with the given columns meets the condition.
    /// A condition on a column that the table does not have, or on a place
    /// that the row does not have, is not met.
    pub fn eval(&self, row: &Vec<Value>, columns: &Vec<Column>, doubles: &DoubleLiterals) -> (r:
        bool)
        ensures
            r == self@.eval(row_view(row@), columns_view(columns@), *doubles),
    {
        let (name, _) = self.unbox();
        match find_column(columns, name.as_str()) {
            None => false,
            Some(column) => {
                if column.idx < row.len() {
                    self.admits(&row[column.idx], doubles)
                } else {
                    false
                }
            },
        }
    }
}

} // verus!
