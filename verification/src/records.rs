//! Serial types: the codes in a record's header that say how each value is stored.

use vstd::prelude::*;
use crate::bytes::{be_integer, be_signed, be_unsigned, be_value};
use crate::error::Error;
use crate::value::{Value, ValueView};

verus! {

/// What `String::from_utf8_lossy` makes of `bytes`: their text, with the
/// replacement character in place of each sequence that is not UTF-8.
pub uninterp spec fn lossy_text(bytes: Seq<u8>) -> Seq<char>;

/// Calls `String::from_utf8_lossy` and owns the result. The contract names
/// the text that comes back; it is a function of the bytes alone.
#[verifier::external_body]
pub(crate) fn text_of_bytes(bytes: &[u8]) -> (r: String)
    ensures
        r@ == lossy_text(bytes@),
{
    String::from_utf8_lossy(bytes).into_owned()
}

/// How one value of a record is stored.
#[derive(Clone, Copy, Debug, PartialEq, Eq)]
pub enum RecordCode {
    Null,
    I8,
    I16,
    I24,
    I32,
    I48,
    I64,
    F64,
    Zero,
    One,
    /// A blob of that many bytes.
    Blob(u64),
    /// A text of that many bytes.
    String(u64),
}

impl RecordCode {
    /// The code that a serial type stands for; the serial types 10 and 11 stand for none.
    pub open spec fn of_serial(n: u64) -> Option<RecordCode> {
        if n == 0 {
            Some(RecordCode::Null)
        } else if n == 1 {
            Some(RecordCode::I8)
        } else if n == 2 {
            Some(RecordCode::I16)
        } else if n == 3 {
            Some(RecordCode::I24)
        } else if n == 4 {
            Some(RecordCode::I32)
        } else if n == 5 {
            Some(RecordCode::I48)
        } else if n == 6 {
            Some(RecordCode::I64)
        } else if n == 7 {
            Some(RecordCode::F64)
        } else if n == 8 {
            Some(RecordCode::Zero)
        } else if n == 9 {
            Some(RecordCode::One)
        } else if n >= 12 && n % 2 == 0 {
            Some(RecordCode::Blob(((n - 12) / 2) as u64))
        } else if n >= 13 {
            Some(RecordCode::String(((n - 13) / 2) as u64))
        } else {
            None
        }
    }

    /// The number of body bytes that a value of this code takes.
    pub open spec fn body_len(self) -> nat {
        match self {
            RecordCode::Null | RecordCode::Zero | RecordCode::One => 0,
            RecordCode::I8 => 1,
            RecordCode::I16 => 2,
            RecordCode::I24 => 3,
            RecordCode::I32 => 4,
            RecordCode::I48 => 6,
            RecordCode::I64 | RecordCode::F64 => 8,
            RecordCode::Blob(n) => n as nat,
            RecordCode::String(n) => n as nat,
        }
    }

    /// The value that the bytes of a body of this code stand for.
    pub open spec fn value_of(self, body: Seq<u8>) -> ValueView {
        match self {
            RecordCode::Null => ValueView::Null,
            RecordCode::Zero => ValueView::Integer(0),
            RecordCode::One => ValueView::Integer(1),
            RecordCode::F64 => ValueView::Float(be_value(body) as u64),
            RecordCode::Blob(_) => ValueView::Blob(body),
            RecordCode::String(_) => ValueView::Text(lossy_text(body)),
            _ => ValueView::Integer(be_signed(body) as i64),
        }
    }

    /// The value at the start of `bytes` and the number of bytes it takes, or
    /// `None` where `bytes` is too short.
    pub open spec fn decode(self, bytes: Seq<u8>) -> Option<(ValueView, nat)> {
        if bytes.len() < self.body_len() {
            None
        } else {
            Some((self.value_of(bytes.take(self.body_len() as int)), self.body_len()))
        }
    }

    /// The code of a serial type.
    pub fn from_serial(n: u64) -> (r: Result<RecordCode, Error>)
        ensures
            match r {
                Ok(code) => Self::of_serial(n) == Some(code),
                Err(e) => Self::of_serial(n).is_none() && e == Error::UnknownSerialType(n),
            },
    {
        if n == 0 {
            Ok(RecordCode::Null)
        } else if n == 1 {
            Ok(RecordCode::I8)
        } else if n == 2 {
            Ok(RecordCode::I16)
        } else if n == 3 {
            Ok(RecordCode::I24)
        } else if n == 4 {
            Ok(RecordCode::I32)
        } else if n == 5 {
            Ok(RecordCode::I48)
        } else if n == 6 {
            Ok(RecordCode::I64)
        } else if n == 7 {
            Ok(RecordCode::F64)
        } else if n == 8 {
            Ok(RecordCode::Zero)
        } else if n == 9 {
            Ok(RecordCode::One)
        } else if n >= 12 && n % 2 == 0 {
            Ok(RecordCode::Blob((n - 12) / 2))
        } else if n >= 13 {
            Ok(RecordCode::String((n - 13) / 2))
        } else {
            Err(Error::UnknownSerialType(n))
        }
    }

    /// Reads one value of this code from the start of `input`. Gives what
    /// follows it and the value.
    pub fn parse<'a>(self, input: &'a [u8]) -> (r: Result<(&'a [u8], Value), Error>)
        ensures
            match r {
                Ok((rest, value)) => self.decode(input@) == Some((value@, self.body_len()))
                    && rest@ == input@.skip(self.body_len() as int),
                Err(e) => self.decode(input@).is_none() && e == Error::MalformedRecord,
            },
    {
        let width: u64 = match self {
            RecordCode::Null | RecordCode::Zero | RecordCode::One => 0,
            RecordCode::I8 => 1,
            RecordCode::I16 => 2,
            RecordCode::I24 => 3,
            RecordCode::I32 => 4,
            RecordCode::I48 => 6,
            RecordCode::I64 | RecordCode::F64 => 8,
            RecordCode::Blob(n) => n,
            RecordCode::String(n) => n,
        };
        if width > input.len() as u64 {
            return Err(Error::MalformedRecord);
        }
        let n: usize = width as usize;
        let body = &input[0..n];
        let rest = &input[n..input.len()];
        proof {
            assert(body@ =~= input@.take(n as int));
            assert(rest@ =~= input@.skip(n as int));
            assert(body@.take(n as int) =~= body@);
        }
        let value = match self {
            RecordCode::Null => Value::Null,
            RecordCode::Zero => Value::Integer(0),
            RecordCode::One => Value::Integer(1),
            RecordCode::F64 => Value::Float(be_unsigned(body, n)),
            RecordCode::Blob(_) => Value::Blob(vstd::slice::slice_to_vec(body)),
            RecordCode::String(_) => Value::Text(text_of_bytes(body)),
            _ => Value::Integer(be_integer(body, n)),
        };
        Ok((rest, value))
    }
}

/// Every serial type but 10 and 11 has a code. A value of that code takes the
/// number of bytes that the file format gives for the serial type, and it is
/// of the kind that the format gives: null for 0, an integer for 1 to 6, 8 and
/// 9, a double for 7, a blob for the even ones from 12 and a text for the odd
/// ones from 13. Decoding fails exactly where the body is shorter than that.
pub proof fn lemma_serial_types(n: u64, body: Seq<u8>)
    ensures
        RecordCode::of_serial(n).is_none() <==> (n == 10 || n == 11),
        RecordCode::of_serial(n) matches Some(code) ==> {
            &&& code.body_len() == (if n == 0 || n == 8 || n == 9 {
                0
            } else if n <= 4 {
                n as int
            } else if n == 5 {
                6
            } else if n == 6 || n == 7 {
                8
            } else if n % 2 == 0 {
                (n - 12) / 2
            } else {
                (n - 13) / 2
            })
            &&& code.decode(body).is_some() <==> body.len() >= code.body_len()
            &&& code.decode(body) matches Some((value, taken)) ==> {
                &&& taken == code.body_len()
                &&& n == 0 ==> value is Null
                &&& (1 <= n <= 6 || n == 8 || n == 9) ==> value is Integer
                &&& n == 8 ==> value == ValueView::Integer(0)
                &&& n == 9 ==> value == ValueView::Integer(1)
                &&& n == 7 ==> value is Float
                &&& (n >= 12 && n % 2 == 0) ==> value is Blob && value->Blob_0.len() == taken
                &&& (n >= 13 && n % 2 == 1) ==> value is Text
            }
        },
{
}

} // verus!
