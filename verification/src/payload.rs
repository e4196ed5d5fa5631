//! Records: the header of serial types and the body of values inside a cell.

use vstd::prelude::*;
use crate::error::Error;
use crate::records::RecordCode;
use crate::value::{row_view, Value, ValueView};
use crate::varint::{decode, varint};

verus! {

/// The payload part of a cell.
#[derive(Clone, Copy, Debug, PartialEq)]
pub struct Payload<'a> {
    /// The size that the cell declares for its payload.
    pub size: u64,
    /// The bytes of the payload that lie on the page.
    pub payload: &'a [u8],
    /// The first overflow page, where the payload has one.
    pub overflow: Option<u32>,
}

/// The varints that `bytes` hold one after another, up to the first place
/// where no whole varint is left.
pub open spec fn varints(bytes: Seq<u8>) -> Seq<u64>
    decreases bytes.len(),
{
    match decode(bytes) {
        Some((value, taken)) => if 0 < taken <= bytes.len() {
            seq![value] + varints(bytes.skip(taken as int))
        } else {
            Seq::empty()
        },
        None => Seq::empty(),
    }
}

/// The values that a body holds for the given serial types, in their order,
/// and the number of bytes they take. `None` where a serial type is reserved
/// or the body is too short.
pub open spec fn values(serials: Seq<u64>, body: Seq<u8>) -> Option<(Seq<ValueView>, nat)>
    decreases serials.len(),
{
    if serials.len() == 0 {
        Some((Seq::empty(), 0))
    } else {
        match RecordCode::of_serial(serials[0]) {
            None => None,
            Some(code) => match code.decode(body) {
                None => None,
                Some((value, taken)) => match values(serials.skip(1), body.skip(taken as int)) {
                    None => None,
                    Some((more, more_taken)) => Some((seq![value] + more, taken + more_taken)),
                },
            },
        }
    }
}

/// The serial types of a record: the varints of its header after the first,
/// which is the header's length. `None` where the payload is shorter than its
/// header or the header holds no serial type.
pub open spec fn record_serials(payload: Seq<u8>) -> Option<Seq<u64>> {
    match decode(payload) {
        None => None,
        Some((header_len, _)) => if header_len > payload.len() {
            None
        } else {
            let header = payload.take(header_len as int);
            match decode(header) {
                None => None,
                Some((_, taken)) => {
                    let serials = varints(header.skip(taken as int));
                    if serials.len() == 0 {
                        None
                    } else {
                        Some(serials)
                    }
                },
            }
        },
    }
}

/// The values of a record and the number of body bytes they take.
pub open spec fn record(payload: Seq<u8>) -> Option<(Seq<ValueView>, nat)> {
    match record_serials(payload) {
        None => None,
        Some(serials) => values(serials, payload.skip(decode(payload).unwrap().0 as int)),
    }
}

/// The values of a body take no more bytes than the body has.
pub proof fn lemma_values_bound(serials: Seq<u64>, body: Seq<u8>)
    ensures
        values(serials, body) matches Some((row, taken)) ==> taken <= body.len() && row.len()
            == serials.len(),
    decreases serials.len(),
{
    if serials.len() > 0 {
        match RecordCode::of_serial(serials[0]) {
            None => {},
            Some(code) => match code.decode(body) {
                None => {},
                Some((_, taken)) => {
                    lemma_values_bound(serials.skip(1), body.skip(taken as int));
                },
            },
        }
    }
}

/// A record that can be read holds at least one value.
pub proof fn lemma_record_not_empty(payload: Seq<u8>)
    ensures
        record(payload) matches Some((row, _)) ==> row.len() > 0,
{
    match record_serials(payload) {
        None => {},
        Some(serials) => {
            lemma_values_bound(serials, payload.skip(decode(payload).unwrap().0 as int));
        },
    }
}

/// Reading one more serial type appends one more value.
pub proof fn lemma_values_push(serials: Seq<u64>, body: Seq<u8>, next: u64)
    ensures
        values(serials.push(next), body) == match values(serials, body) {
            None => None,
            Some((row, taken)) => match RecordCode::of_serial(next) {
                None => None,
                Some(code) => match code.decode(body.skip(taken as int)) {
                    None => None,
                    Some((value, more)) => Some((row.push(value), taken + more)),
                },
            },
        },
    decreases serials.len(),
{
    if serials.len() == 0 {
        let one = serials.push(next);
        assert(one.skip(1) =~= Seq::<u64>::empty());
        assert(one[0] == next);
        assert(body.skip(0) =~= body);
        match RecordCode::of_serial(next) {
            None => {},
            Some(code) => match code.decode(body) {
                None => {},
                Some((value, more)) => {
                    assert(values(one.skip(1), body.skip(more as int)) == Some((Seq::<ValueView>::empty(), 0nat)));
                    assert(seq![value] + Seq::<ValueView>::empty() =~= Seq::<ValueView>::empty().push(value));
                },
            },
        }
    } else {
        let all = serials.push(next);
        assert(all[0] == serials[0]);
        assert(all.skip(1) =~= serials.skip(1).push(next));
        match RecordCode::of_serial(serials[0]) {
            None => {},
            Some(code) => match code.decode(body) {
                None => {},
                Some((value, taken)) => {
                    let tail = body.skip(taken as int);
                    lemma_values_push(serials.skip(1), tail, next);
                    lemma_values_bound(serials.skip(1), tail);
                    match values(serials.skip(1), tail) {
                        None => {},
                        Some((more, more_taken)) => {
                            assert(tail.skip(more_taken as int) =~= body.skip((taken + more_taken) as int));
                            match RecordCode::of_serial(next) {
                                None => {},
                                Some(last) => match last.decode(tail.skip(more_taken as int)) {
                                    None => {},
                                    Some((v, n)) => {
                                        assert(seq![value] + more.push(v) =~= (seq![value] + more).push(v));
                                    },
                                },
                            }
                        },
                    }
                },
            },
        }
    }
}

/// Where the values of some serial types cannot be read, those of more serial
/// types cannot be read either.
pub proof fn lemma_values_prefix_fails(serials: Seq<u64>, body: Seq<u8>, k: int)
    requires
        0 <= k <= serials.len(),
        values(serials.take(k), body).is_none(),
    ensures
        values(serials, body).is_none(),
    decreases serials.len() - k,
{
    if k < serials.len() {
        assert(serials.take(k + 1) =~= serials.take(k).push(serials[k]));
        lemma_values_push(serials.take(k), body, serials[k]);
        lemma_values_prefix_fails(serials, body, k + 1);
    } else {
        assert(serials.take(k) =~= serials);
    }
}

impl<'a> Payload<'a> {
    /// Reads the varints of `header` one after another.
    fn serials(header: &[u8]) -> (r: Vec<u64>)
        ensures
            r@ == varints(header@),
    {
        let mut out: Vec<u64> = Vec::new();
        let mut rest: &[u8] = header;
        loop
            invariant
                varints(header@) == out@ + varints(rest@),
            decreases rest@.len(),
        {
            match varint(rest) {
                Ok((next, value)) => {
                    proof {
                        assert(varints(rest@) == seq![value] + varints(next@));
                        assert(out@.push(value) + varints(next@) =~= out@ + (seq![value] + varints(next@)));
                    }
                    out.push(value);
                    rest = next;
                },
                Err(_) => {
                    proof {
                        assert(varints(rest@) =~= Seq::<u64>::empty());
                        assert(out@ + Seq::<u64>::empty() =~= out@);
                    }
                    return out;
                },
            }
        }
    }

    /// Reads the record: the values of the payload in the order of its header,
    /// and the bytes that follow the last value.
    pub fn parse(&self) -> (r: Result<(&'a [u8], Vec<Value>), Error>)
        ensures
            match r {
                Ok((rest, row)) => {
                    &&& record(self.payload@) matches Some((values, taken))
                    &&& row_view(row@) == values
                    &&& rest@ == self.payload@.skip(decode(self.payload@).unwrap().0 + taken)
                },
                Err(e) => record(self.payload@).is_none() && e == Error::MalformedRecord,
            },
    {
        let payload: &'a [u8] = self.payload;
        let header_len: u64 = match varint(payload) {
            Ok((_, n)) => n,
            Err(_) => {
                return Err(Error::MalformedRecord);
            },
        };
        if header_len > payload.len() as u64 {
            return Err(Error::MalformedRecord);
        }
        let split: usize = header_len as usize;
        let header = &payload[0..split];
        assert(header@ =~= payload@.take(split as int));
        let codes_bytes = match varint(header) {
            Ok((rest, _)) => rest,
            Err(_) => {
                return Err(Error::MalformedRecord);
            },
        };
        let serials = Self::serials(codes_bytes);
        if serials.len() == 0 {
            return Err(Error::MalformedRecord);
        }
        assert(record_serials(payload@) == Some(serials@));
        let mut body: &'a [u8] = &payload[split..payload.len()];
        let ghost whole = payload@.skip(split as int);
        assert(body@ =~= whole);
        let mut row: Vec<Value> = Vec::new();
        let ghost mut taken: nat = 0;
        let mut i: usize = 0;
        assert(serials@.take(0) =~= Seq::<u64>::empty());
        assert(whole.skip(0) =~= whole);
        assert(record(self.payload@) == values(serials@, whole));
        while i < serials.len()
            invariant
                i <= serials@.len(),
                values(serials@.take(i as int), whole) == Some((row_view(row@), taken)),
                taken <= whole.len(),
                body@ == whole.skip(taken as int),
                record(self.payload@) == values(serials@, whole),
            decreases serials@.len() - i,
        {
            proof {
                assert(serials@.take(i + 1) =~= serials@.take(i as int).push(serials@[i as int]));
                lemma_values_push(serials@.take(i as int), whole, serials@[i as int]);
                lemma_values_bound(serials@.take(i + 1), whole);
            }
            let code = match RecordCode::from_serial(serials[i]) {
                Ok(code) => code,
                Err(_) => {
                    proof {
                        lemma_values_prefix_fails(serials@, whole, i + 1);
                    }
                    return Err(Error::MalformedRecord);
                },
            };
            match code.parse(body) {
                Ok((rest, value)) => {
                    proof {
                        assert(row_view(row@.push(value)) =~= row_view(row@).push(value@));
                        assert(rest@ =~= whole.skip((taken + code.body_len()) as int));
                        taken = taken + code.body_len();
                    }
                    row.push(value);
                    body = rest;
                },
                Err(_) => {
                    proof {
                        lemma_values_prefix_fails(serials@, whole, i + 1);
                    }
                    return Err(Error::MalformedRecord);
                },
            }
            i += 1;
        }
        proof {
            assert(serials@.take(i as int) =~= serials@);
            assert(whole.skip(taken as int) =~= payload@.skip(split + taken));
        }
        Ok((body, row))
    }
}

} // verus!
