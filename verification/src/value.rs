//! The values that a record holds.

use vstd::prelude::*;
use crate::bytes::{to_unsigned, unsigned_of};
use crate::decimal::{integer_text, natural_text, push_integer, push_natural, read_u64, u64_of};
use crate::text::{chars_of, string_of};

verus! {

/// One value of a row.
///
/// A double is held as the 64 bits that the file stores for it.
#[derive(Debug, PartialEq)]
pub enum Value {
    Null,
    Integer(i64),
    Float(u64),
    Blob(Vec<u8>),
    Text(String),
}

/// What a [`Value`] holds, as contracts speak of it.
pub enum ValueView {
    Null,
    Integer(i64),
    Float(u64),
    Blob(Seq<u8>),
    Text(Seq<char>),
}

impl View for Value {
    type V = ValueView;

    open spec fn view(&self) -> ValueView {
        match self {
            Value::Null => ValueView::Null,
            Value::Integer(n) => ValueView::Integer(*n),
            Value::Float(bits) => ValueView::Float(*bits),
            Value::Blob(b) => ValueView::Blob(b@),
            Value::Text(s) => ValueView::Text(s@),
        }
    }
}

/// The numbers of `bytes` in base ten, with a comma and a space between them.
pub open spec fn list_text(bytes: Seq<u8>) -> Seq<char>
    decreases bytes.len(),
{
    if bytes.len() == 0 {
        Seq::empty()
    } else if bytes.len() == 1 {
        natural_text(bytes[0] as nat)
    } else {
        list_text(bytes.drop_last()) + seq![',', ' '] + natural_text(bytes.last() as nat)
    }
}

/// The whole number that a double becomes when it is cut off toward zero and
/// kept within the range of `u64`; zero for what is not a number. `bits` is
/// the double's bit pattern: a sign, eleven bits of exponent and 52 bits of
/// fraction.
pub open spec fn double_to_u64(bits: u64) -> u64 {
    let exponent = (bits >> 52) & 0x7ff;
    let fraction = bits & 0xf_ffff_ffff_ffff;
    let significand = fraction | 0x10_0000_0000_0000;
    if bits >> 63 == 1 || exponent < 1023 || (exponent == 0x7ff && fraction != 0) {
        0
    } else if exponent > 1086 {
        u64::MAX
    } else if exponent <= 1075 {
        significand >> ((1075 - exponent) as u64)
    } else {
        significand << ((exponent - 1075) as u64)
    }
}

impl ValueView {
    /// The text of a value: nothing for null, base ten for an integer, the
    /// list of its bytes in square brackets for a blob, and a text itself. A
    /// double has no text here: it is held as its bits, and writing it in
    /// base ten is left to whoever has use for it.
    pub open spec fn text(self) -> Seq<char> {
        match self {
            ValueView::Null => Seq::empty(),
            ValueView::Integer(n) => integer_text(n as int),
            ValueView::Float(_) => Seq::empty(),
            ValueView::Blob(b) => seq!['['] + list_text(b) + seq![']'],
            ValueView::Text(s) => s,
        }
    }

    /// The value as an unsigned 64-bit number: an integer keeps its bits, a
    /// double is cut off toward zero, a text is read in base ten; zero for
    /// null, for a blob and for a text that writes no such number.
    pub open spec fn as_u64(self) -> u64 {
        match self {
            ValueView::Null => 0,
            ValueView::Integer(n) => unsigned_of(n),
            ValueView::Float(bits) => double_to_u64(bits),
            ValueView::Blob(_) => 0,
            ValueView::Text(s) => match u64_of(s) {
                Some(n) => n,
                None => 0,
            },
        }
    }
}

impl Value {
    /// The text of the value.
    pub fn to_string(&self) -> (r: String)
        ensures
            r@ == self@.text(),
    {
        match self {
            Value::Null => String::new(),
            Value::Integer(n) => {
                let mut out: Vec<char> = Vec::new();
                push_integer(*n, &mut out);
                assert(out@ =~= integer_text(*n as int));
                string_of(out.as_slice())
            },
            Value::Float(_) => String::new(),
            Value::Blob(b) => {
                let mut out: Vec<char> = Vec::new();
                out.push('[');
                let mut i: usize = 0;
                assert(b@.take(0) =~= Seq::<u8>::empty());
                while i < b.len()
                    invariant
                        i <= b@.len(),
                        out@ == seq!['['] + list_text(b@.take(i as int)),
                    decreases b@.len() - i,
                {
                    let ghost before = out@;
                    if i > 0 {
                        out.push(',');
                        out.push(' ');
                    }
                    let ghost middle = out@;
                    push_natural(b[i] as u64, &mut out);
                    proof {
                        let next = b@.take(i + 1);
                        assert(next.drop_last() =~= b@.take(i as int));
                        assert(next.last() == b@[i as int]);
                        if i > 0 {
                            assert(middle =~= before + seq![',', ' ']);
                            assert(out@ =~= seq!['['] + list_text(next));
                        } else {
                            assert(next[0] == b@[0]);
                            assert(out@ =~= seq!['['] + list_text(next));
                        }
                    }
                    i += 1;
                }
                assert(b@.take(i as int) =~= b@);
                out.push(']');
                string_of(out.as_slice())
            },
            Value::Text(s) => s.clone(),
        }
    }

    /// The value as an unsigned 64-bit number.
    pub fn to_u64(&self) -> (r: u64)
        ensures
            r == self@.as_u64(),
    {
        match self {
            Value::Null => 0,
            Value::Integer(n) => to_unsigned(*n),
            Value::Float(bits) => double_u64(*bits),
            Value::Blob(_) => 0,
            Value::Text(s) => {
                let chars = chars_of(s.as_str());
                match read_u64(chars.as_slice()) {
                    Some(n) => n,
                    None => 0,
                }
            },
        }
    }
}

/// Cuts the double with the given bits off toward zero, within the range of `u64`.
pub fn double_u64(bits: u64) -> (r: u64)
    ensures
        r == double_to_u64(bits),
{
    let exponent: u64 = (bits >> 52) & 0x7ff;
    let fraction: u64 = bits & 0xf_ffff_ffff_ffff;
    let significand: u64 = fraction | 0x10_0000_0000_0000;
    assert(((bits >> 52) & 0x7ff) <= 0x7ff) by (bit_vector);
    if bits >> 63 == 1 || exponent < 1023 || (exponent == 0x7ff && fraction != 0) {
        0
    } else if exponent > 1086 {
        u64::MAX
    } else if exponent <= 1075 {
        significand >> (1075 - exponent)
    } else {
        significand << (exponent - 1075)
    }
}

impl Clone for Value {
    fn clone(&self) -> (r: Self)
        ensures
            r@ == self@,
    {
        match self {
            Value::Null => Value::Null,
            Value::Integer(n) => Value::Integer(*n),
            Value::Float(bits) => Value::Float(*bits),
            Value::Blob(b) => Value::Blob(vstd::slice::slice_to_vec(b.as_slice())),
            Value::Text(s) => Value::Text(s.clone()),
        }
    }
}

/// What each value of a row holds, in the row's order.
pub open spec fn row_view(row: Seq<Value>) -> Seq<ValueView> {
    Seq::new(row.len(), |i: int| row[i]@)
}

} // verus!
