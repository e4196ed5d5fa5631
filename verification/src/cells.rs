//! Cells: the entries of a B-tree page.

use vstd::prelude::*;
use crate::bytes::{signed_of, to_signed};
use crate::error::Error;
use crate::payload::{record, Payload};
use crate::value::{row_view, Value, ValueView};

verus! {

/// What a [`Payload`] holds.
pub struct PayloadView {
    pub size: u64,
    pub bytes: Seq<u8>,
    pub overflow: Option<u32>,
}

impl<'a> View for Payload<'a> {
    type V = PayloadView;

    open spec fn view(&self) -> PayloadView {
        PayloadView { size: self.size, bytes: self.payload@, overflow: self.overflow }
    }
}

/// A cell of a table or of an index.
#[derive(Debug, Clone, Copy)]
pub enum Cell<'a> {
    /// A cell of a table's leaf page: one row.
    TableLeaf { row_id: u64, payload: Payload<'a> },
    /// A cell of a table's interior page: a child and the largest row id in it.
    TableInterior { left_child_page: u32, row_id: u64 },
    /// A cell of an index's leaf page: one entry.
    IndexLeaf { payload: Payload<'a> },
    /// A cell of an index's interior page: a child and the entry that ends it.
    IndexInterior { left_child_page: u32, payload: Payload<'a> },
}

/// What a [`Cell`] holds.
pub enum CellView {
    TableLeaf { row_id: u64, payload: PayloadView },
    TableInterior { left_child_page: u32, row_id: u64 },
    IndexLeaf { payload: PayloadView },
    IndexInterior { left_child_page: u32, payload: PayloadView },
}

impl<'a> View for Cell<'a> {
    type V = CellView;

    open spec fn view(&self) -> CellView {
        match self {
            Cell::TableLeaf { row_id, payload } => CellView::TableLeaf {
                row_id: *row_id,
                payload: payload@,
            },
            Cell::TableInterior { left_child_page, row_id } => CellView::TableInterior {
                left_child_page: *left_child_page,
                row_id: *row_id,
            },
            Cell::IndexLeaf { payload } => CellView::IndexLeaf { payload: payload@ },
            Cell::IndexInterior { left_child_page, payload } => CellView::IndexInterior {
                left_child_page: *left_child_page,
                payload: payload@,
            },
        }
    }
}

impl CellView {
    /// The page that the cell points to: the left child of an interior cell,
    /// where that is a page number.
    pub open spec fn next_page(self) -> Option<u64> {
        match self {
            CellView::TableInterior { left_child_page, .. } => if left_child_page != 0 {
                Some(left_child_page as u64)
            } else {
                None
            },
            CellView::IndexInterior { left_child_page, .. } => if left_child_page != 0 {
                Some(left_child_page as u64)
            } else {
                None
            },
            _ => None,
        }
    }

    /// The payload of the cell; a table's interior cell has none.
    pub open spec fn payload(self) -> Option<PayloadView> {
        match self {
            CellView::TableLeaf { payload, .. } => Some(payload),
            CellView::TableInterior { .. } => None,
            CellView::IndexLeaf { payload } => Some(payload),
            CellView::IndexInterior { payload, .. } => Some(payload),
        }
    }

    /// The row id that a table's cell carries.
    pub open spec fn row_id(self) -> Option<u64> {
        match self {
            CellView::TableLeaf { row_id, .. } => Some(row_id),
            CellView::TableInterior { row_id, .. } => Some(row_id),
            _ => None,
        }
    }

    /// The row of the cell: the values of its record, with the row id in place
    /// of a null first value in a table's leaf cell. `None` where the cell has
    /// no payload or its record cannot be read.
    pub open spec fn row(self) -> Option<Seq<ValueView>> {
        match self.payload() {
            None => None,
            Some(payload) => match record(payload.bytes) {
                None => None,
                Some((values, _)) => match self {
                    CellView::TableLeaf { row_id, .. } => if values.len() > 0 && values[0]
                        is Null {
                        Some(values.update(0, ValueView::Integer(signed_of(row_id))))
                    } else {
                        Some(values)
                    },
                    _ => Some(values),
                },
            },
        }
    }
}

impl<'a> Cell<'a> {
    /// The page that the cell points to, where it points to one.
    pub fn next_page(&self) -> (r: Option<u64>)
        ensures
            r == self@.next_page(),
            r matches Some(pgno) ==> pgno != 0,
    {
        match self {
            Cell::TableLeaf { .. } => None,
            Cell::TableInterior { left_child_page, .. } => if *left_child_page != 0 {
                Some(*left_child_page as u64)
            } else {
                None
            },
            Cell::IndexLeaf { .. } => None,
            Cell::IndexInterior { left_child_page, .. } => if *left_child_page != 0 {
                Some(*left_child_page as u64)
            } else {
                None
            },
        }
    }

    /// The payload of the cell, where it has one.
    pub fn get_payload(&self) -> (r: Option<&Payload<'a>>)
        ensures
            match r {
                Some(payload) => self@.payload() == Some(payload@),
                None => self@.payload().is_none(),
            },
    {
        match self {
            Cell::TableLeaf { payload, .. } => Some(payload),
            Cell::TableInterior { .. } => None,
            Cell::IndexLeaf { payload } => Some(payload),
            Cell::IndexInterior { payload, .. } => Some(payload),
        }
    }

    /// The row id of a table's cell.
    pub fn row_id(&self) -> (r: Option<u64>)
        ensures
            r == self@.row_id(),
    {
        match self {
            Cell::TableLeaf { row_id, .. } => Some(*row_id),
            Cell::TableInterior { row_id, .. } => Some(*row_id),
            _ => None,
        }
    }

    /// Reads the row of the cell. In a table's leaf cell a null first value
    /// stands for the row id, which takes its place.
    pub fn row(&self) -> (r: Result<Vec<Value>, Error>)
        ensures
            match r {
                Ok(row) => self@.row() == Some(row_view(row@)),
                Err(e) => self@.row().is_none() && e == Error::MalformedRecord,
            },
            r matches Ok(row) ==> row@.len() > 0,
            (r is Ok && self@ is TableLeaf && record(self@.payload().unwrap().bytes).unwrap().0[0]
                is Null) ==> r.unwrap()@[0]@ == ValueView::Integer(
                signed_of(self@.row_id().unwrap()),
            ),
    {
        let payload = match self.get_payload() {
            Some(payload) => payload,
            None => {
                return Err(Error::MalformedRecord);
            },
        };
        let mut row = match payload.parse() {
            Ok((_, row)) => row,
            Err(_) => {
                return Err(Error::MalformedRecord);
            },
        };
        proof {
            crate::payload::lemma_record_not_empty(payload.payload@);
        }
        if let Cell::TableLeaf { row_id, .. } = self {
            let first_is_null = match &row[0] {
                Value::Null => true,
                _ => false,
            };
            if first_is_null {
                let ghost before = row@;
                row.set(0, Value::Integer(to_signed(*row_id)));
                assert(row_view(row@) =~= row_view(before).update(
                    0,
                    ValueView::Integer(signed_of(*row_id)),
                ));
            }
        }
        Ok(row)
    }
}

} // verus!
