//! The order of values: by kind first, then by what they hold.

use vstd::prelude::*;
use crate::conditions::{compare_doubles, double_order, int_order};
use crate::text::{compare, order_of, Order};
use crate::value::{Value, ValueView};

verus! {

/// The order of two sequences of bytes: by the first byte in which they
/// differ, and a sequence before each sequence that it starts.
pub open spec fn bytes_order(a: Seq<u8>, b: Seq<u8>) -> Order
    decreases a.len(),
{
    if a.len() == 0 {
        if b.len() == 0 {
            Order::Equal
        } else {
            Order::Less
        }
    } else if b.len() == 0 {
        Order::Greater
    } else if a[0] < b[0] {
        Order::Less
    } else if a[0] > b[0] {
        Order::Greater
    } else {
        bytes_order(a.skip(1), b.skip(1))
    }
}

/// Sequences that agree up to `i` stand to each other as what follows `i` does.
pub proof fn lemma_bytes_order_skip(a: Seq<u8>, b: Seq<u8>, i: int)
    requires
        0 <= i <= a.len(),
        i <= b.len(),
        a.take(i) == b.take(i),
    ensures
        bytes_order(a, b) == bytes_order(a.skip(i), b.skip(i)),
    decreases i,
{
    if i == 0 {
        assert(a.skip(0) =~= a);
        assert(b.skip(0) =~= b);
    } else {
        assert(a[0] == a.take(i)[0]);
        assert(b[0] == b.take(i)[0]);
        assert(a.skip(1).take(i - 1) =~= a.take(i).skip(1));
        assert(b.skip(1).take(i - 1) =~= b.take(i).skip(1));
        lemma_bytes_order_skip(a.skip(1), b.skip(1), i - 1);
        assert(a.skip(1).skip(i - 1) =~= a.skip(i));
        assert(b.skip(1).skip(i - 1) =~= b.skip(i));
    }
}

/// Compares two sequences of bytes.
pub fn compare_bytes(a: &[u8], b: &[u8]) -> (r: Order)
    ensures
        r == bytes_order(a@, b@),
{
    let mut i: usize = 0;
    while i < a.len() && i < b.len()
        invariant
            i <= a@.len(),
            i <= b@.len(),
            a@.take(i as int) == b@.take(i as int),
        decreases a@.len() - i,
    {
        proof {
            lemma_bytes_order_skip(a@, b@, i as int);
            assert(a@.skip(i as int)[0] == a@[i as int]);
            assert(b@.skip(i as int)[0] == b@[i as int]);
        }
        if a[i] < b[i] {
            return Order::Less;
        }
        if a[i] > b[i] {
            return Order::Greater;
        }
        proof {
            assert(a@.take(i + 1) =~= a@.take(i as int).push(a@[i as int]));
            assert(b@.take(i + 1) =~= b@.take(i as int).push(b@[i as int]));
        }
        i += 1;
    }
    proof {
        lemma_bytes_order_skip(a@, b@, i as int);
    }
    if i < b.len() {
        Order::Less
    } else if i < a.len() {
        Order::Greater
    } else {
        Order::Equal
    }
}

impl ValueView {
    /// The place of a value's kind among the kinds: null first, then
    /// integers, doubles, blobs and texts.
    pub open spec fn rank(self) -> nat {
        match self {
            ValueView::Null => 0,
            ValueView::Integer(_) => 1,
            ValueView::Float(_) => 2,
            ValueView::Blob(_) => 3,
            ValueView::Text(_) => 4,
        }
    }

    /// How a value stands to another: by kind, and within a kind by number,
    /// by bytes or by text. Two doubles of which one is not a number stand
    /// in no order.
    pub open spec fn order(self, other: ValueView) -> Option<Order> {
        if self.rank() < other.rank() {
            Some(Order::Less)
        } else if self.rank() > other.rank() {
            Some(Order::Greater)
        } else {
            match (self, other) {
                (ValueView::Integer(a), ValueView::Integer(b)) => Some(
                    int_order(a as int, b as int),
                ),
                (ValueView::Float(a), ValueView::Float(b)) => double_order(a, b),
                (ValueView::Blob(a), ValueView::Blob(b)) => Some(bytes_order(a, b)),
                (ValueView::Text(a), ValueView::Text(b)) => Some(order_of(a, b)),
                _ => Some(Order::Equal),
            }
        }
    }
}

impl Value {
    /// How the value stands to another.
    pub fn order(&self, other: &Value) -> (r: Option<Order>)
        ensures
            r == self@.order(other@),
    {
        match (self, other) {
            (Value::Null, Value::Null) => Some(Order::Equal),
            (Value::Null, _) => Some(Order::Less),
            (Value::Integer(_), Value::Null) => Some(Order::Greater),
            (Value::Integer(a), Value::Integer(b)) => {
                if *a < *b {
                    Some(Order::Less)
                } else if *a > *b {
                    Some(Order::Greater)
                } else {
                    Some(Order::Equal)
                }
            },
            (Value::Integer(_), _) => Some(Order::Less),
            (Value::Float(_), Value::Null) => Some(Order::Greater),
            (Value::Float(_), Value::Integer(_)) => Some(Order::Greater),
            (Value::Float(a), Value::Float(b)) => compare_doubles(*a, *b),
            (Value::Float(_), _) => Some(Order::Less),
            (Value::Blob(a), Value::Blob(b)) => Some(compare_bytes(a.as_slice(), b.as_slice())),
            (Value::Blob(_), Value::Text(_)) => Some(Order::Less),
            (Value::Blob(_), _) => Some(Order::Greater),
            (Value::Text(a), Value::Text(b)) => Some(compare(a.as_str(), b.as_str())),
            (Value::Text(_), _) => Some(Order::Greater),
        }
    }
}

} // verus!
