//! B-tree pages: the page header, the cell pointer array and the cells.

use vstd::prelude::*;
use crate::bytes::{be_unsigned, be_value, lemma_be_bound, lemma_pow256_8};
use crate::cells::{Cell, CellView, PayloadView};
use crate::error::Error;
use crate::payload::Payload;
use crate::varint::{decode, varint};

verus! {

/// One page of the file, with its B-tree header read.
#[derive(Debug, Clone)]
pub struct Page {
    /// The number of the page; the first page of a file is page 1.
    pub page_id: u64,
    /// The bytes of the page.
    pub data: Vec<u8>,
    pub header: BtreeHeader,
}

/// The four kinds of B-tree page.
#[derive(Debug, Clone, Copy, PartialEq, Eq)]
pub enum PageKind {
    IndexInterior,
    TableInterior,
    IndexLeaf,
    TableLeaf,
}

impl PageKind {
    /// The kind that the first byte of a B-tree header names.
    pub open spec fn of_byte(b: u8) -> Option<PageKind> {
        if b == 2 {
            Some(PageKind::IndexInterior)
        } else if b == 5 {
            Some(PageKind::TableInterior)
        } else if b == 10 {
            Some(PageKind::IndexLeaf)
        } else if b == 13 {
            Some(PageKind::TableLeaf)
        } else {
            None
        }
    }

    /// Whether pages of this kind hold children rather than rows or entries.
    pub open spec fn interior(self) -> bool {
        self == PageKind::IndexInterior || self == PageKind::TableInterior
    }

    /// Whether pages of this kind hold children rather than rows or entries.
    pub fn is_interior(self) -> (r: bool)
        ensures
            r == self.interior(),
    {
        match self {
            PageKind::IndexInterior | PageKind::TableInterior => true,
            _ => false,
        }
    }

    /// The kind that the first byte of a B-tree header names.
    pub fn from_byte(value: u8) -> (r: Result<PageKind, Error>)
        ensures
            match r {
                Ok(kind) => Self::of_byte(value) == Some(kind),
                Err(e) => Self::of_byte(value).is_none() && e == Error::UnknownPageKind(value),
            },
    {
        if value == 2 {
            Ok(PageKind::IndexInterior)
        } else if value == 5 {
            Ok(PageKind::TableInterior)
        } else if value == 10 {
            Ok(PageKind::IndexLeaf)
        } else if value == 13 {
            Ok(PageKind::TableLeaf)
        } else {
            Err(Error::UnknownPageKind(value))
        }
    }
}

/// The header at the start of a B-tree page.
#[derive(Debug, Clone, Copy, PartialEq, Eq)]
pub struct BtreeHeader {
    /// The kind of the page.
    pub kind: PageKind,
    /// The offset of the first freeblock in the page, or 0 if there is none.
    pub first_freeblock: u16,
    /// The number of cells on the page.
    pub cell_count: u16,
    /// The offset at which the cell content area starts.
    pub cell_contents: u16,
    /// The number of fragmented free bytes.
    pub fragmented_free_bytes: u8,
    /// The child whose keys are greater than the keys on this page. Only an
    /// interior page has one.
    pub rightmost_pointer: Option<u32>,
}

/// The B-tree header that `bytes` start with. Twelve bytes are read whatever
/// the kind of the page; a leaf page's header ends after the eighth.
pub open spec fn btree_header(bytes: Seq<u8>) -> Result<BtreeHeader, Error> {
    if bytes.len() == 0 {
        Err(Error::MalformedBtreeHeader)
    } else {
        match PageKind::of_byte(bytes[0]) {
            None => Err(Error::UnknownPageKind(bytes[0])),
            Some(kind) => if bytes.len() < 12 {
                Err(Error::MalformedBtreeHeader)
            } else {
                Ok(
                    BtreeHeader {
                        kind,
                        first_freeblock: be_value(bytes.subrange(1, 3)) as u16,
                        cell_count: be_value(bytes.subrange(3, 5)) as u16,
                        cell_contents: be_value(bytes.subrange(5, 7)) as u16,
                        fragmented_free_bytes: bytes[7],
                        rightmost_pointer: if kind.interior() {
                            Some(be_value(bytes.subrange(8, 12)) as u32)
                        } else {
                            None
                        },
                    },
                )
            },
        }
    }
}

/// Reads the two bytes at `at` as a big-endian number.
pub(crate) fn be_u16(input: &[u8], at: usize) -> (r: u16)
    requires
        at + 2 <= input@.len(),
    ensures
        r == be_value(input@.subrange(at as int, at + 2)),
{
    let len = input.len();
    let part = &input[at..at + 2];
    let v = be_unsigned(part, 2);
    proof {
        assert(part@.take(2) =~= input@.subrange(at as int, at + 2));
        lemma_be_bound(part@.take(2));
        lemma_pow256_8();
    }
    v as u16
}

/// Reads the four bytes at `at` as a big-endian number.
pub(crate) fn be_u32(input: &[u8], at: usize) -> (r: u32)
    requires
        at + 4 <= input@.len(),
    ensures
        r == be_value(input@.subrange(at as int, at + 4)),
{
    let len = input.len();
    let part = &input[at..at + 4];
    let v = be_unsigned(part, 4);
    proof {
        assert(part@.take(4) =~= input@.subrange(at as int, at + 4));
        lemma_be_bound(part@.take(4));
        lemma_pow256_8();
    }
    v as u32
}

/// Reads the B-tree header at the start of `input`. Gives what follows its
/// twelve bytes and the header.
pub fn parse_btree_header(input: &[u8]) -> (r: Result<(&[u8], BtreeHeader), Error>)
    ensures
        match r {
            Ok((rest, header)) => btree_header(input@) == Ok::<BtreeHeader, Error>(header)
                && rest@ == input@.skip(12)
                && header.rightmost_pointer.is_some() == header.kind.interior(),
            Err(e) => btree_header(input@) == Err::<BtreeHeader, Error>(e),
        },
{
    if input.len() == 0 {
        return Err(Error::MalformedBtreeHeader);
    }
    let kind = match PageKind::from_byte(input[0]) {
        Ok(kind) => kind,
        Err(e) => {
            return Err(e);
        },
    };
    if input.len() < 12 {
        return Err(Error::MalformedBtreeHeader);
    }
    let first_freeblock = be_u16(input, 1);
    let cell_count = be_u16(input, 3);
    let cell_contents = be_u16(input, 5);
    let fragmented_free_bytes = input[7];
    let rightmost = be_u32(input, 8);
    let rightmost_pointer = if kind.is_interior() {
        Some(rightmost)
    } else {
        None
    };
    let rest = &input[12..input.len()];
    assert(rest@ =~= input@.skip(12));
    Ok(
        (
            rest,
            BtreeHeader {
                kind,
                first_freeblock,
                cell_count,
                cell_contents,
                fragmented_free_bytes,
                rightmost_pointer,
            },
        ),
    )
}

/// The payload that starts at `at` and is `size` bytes long, with nothing
/// known of overflow pages.
pub open spec fn payload_at(bytes: Seq<u8>, at: nat, size: u64) -> PayloadView {
    PayloadView { size, bytes: bytes.subrange(at as int, at + size), overflow: None }
}

/// The cell of a page of the given kind that `bytes` start with, and the
/// number of bytes it takes.
pub open spec fn cell_at(kind: PageKind, bytes: Seq<u8>) -> Result<(CellView, nat), Error> {
    match kind {
        PageKind::TableLeaf => match decode(bytes) {
            None => Err(Error::MalformedVarint),
            Some((size, t1)) => match decode(bytes.skip(t1 as int)) {
                None => Err(Error::MalformedVarint),
                Some((row_id, t2)) => if t1 + t2 + size > bytes.len() {
                    Err(Error::MalformedRecord)
                } else {
                    Ok(
                        (
                            CellView::TableLeaf { row_id, payload: payload_at(bytes, t1 + t2, size) },
                            t1 + t2 + size as nat,
                        ),
                    )
                },
            },
        },
        PageKind::TableInterior => if bytes.len() < 4 {
            Err(Error::MalformedRecord)
        } else {
            match decode(bytes.skip(4)) {
                None => Err(Error::MalformedVarint),
                Some((row_id, t)) => Ok(
                    (
                        CellView::TableInterior {
                            left_child_page: be_value(bytes.subrange(0, 4)) as u32,
                            row_id,
                        },
                        4 + t,
                    ),
                ),
            }
        },
        PageKind::IndexLeaf => match decode(bytes) {
            None => Err(Error::MalformedVarint),
            Some((size, t)) => if t + size > bytes.len() {
                Err(Error::MalformedRecord)
            } else {
                Ok((CellView::IndexLeaf { payload: payload_at(bytes, t, size) }, t + size as nat))
            },
        },
        PageKind::IndexInterior => if bytes.len() < 4 {
            Err(Error::MalformedRecord)
        } else {
            match decode(bytes.skip(4)) {
                None => Err(Error::MalformedVarint),
                Some((size, t)) => if 4 + t + size > bytes.len() {
                    Err(Error::MalformedRecord)
                } else {
                    Ok(
                        (
                            CellView::IndexInterior {
                                left_child_page: be_value(bytes.subrange(0, 4)) as u32,
                                payload: payload_at(bytes, 4 + t, size),
                            },
                            4 + t + size as nat,
                        ),
                    )
                },
            }
        },
    }
}

/// Takes the first `size` bytes of `input` as a payload.
fn take_payload<'a>(input: &'a [u8], size: u64) -> (r: Result<(&'a [u8], Payload<'a>), Error>)
    ensures
        match r {
            Ok((rest, payload)) => size <= input@.len() && rest@ == input@.skip(size as int)
                && payload@ == payload_at(input@, 0, size),
            Err(e) => size > input@.len() && e == Error::MalformedRecord,
        },
{
    if size > input.len() as u64 {
        return Err(Error::MalformedRecord);
    }
    let n: usize = size as usize;
    let bytes = &input[0..n];
    let rest = &input[n..input.len()];
    assert(rest@ =~= input@.skip(size as int));
    Ok((rest, Payload { size, payload: bytes, overflow: None }))
}

impl BtreeHeader {
    /// Reads the cell at the start of `input` as a cell of a page of this
    /// header's kind. Gives what follows the cell and the cell.
    pub fn parse_cell<'a>(&self, input: &'a [u8]) -> (r: Result<(&'a [u8], Cell<'a>), Error>)
        ensures
            match r {
                Ok((rest, cell)) => {
                    &&& cell_at(self.kind, input@) matches Ok((view, taken))
                    &&& cell@ == view
                    &&& taken <= input@.len()
                    &&& rest@ == input@.skip(taken as int)
                },
                Err(e) => cell_at(self.kind, input@) == Err::<(CellView, nat), Error>(e),
            },
    {
        match self.kind {
            PageKind::TableLeaf => {
                let (after_size, size) = match varint(input) {
                    Ok(found) => found,
                    Err(e) => {
                        return Err(e);
                    },
                };
                let (after_id, row_id) = match varint(after_size) {
                    Ok(found) => found,
                    Err(e) => {
                        return Err(e);
                    },
                };
                let ghost t1 = decode(input@).unwrap().1;
                let ghost t2 = decode(after_size@).unwrap().1;
                assert(after_id@ =~= input@.skip((t1 + t2) as int));
                match take_payload(after_id, size) {
                    Ok((rest, payload)) => {
                        proof {
                            assert(rest@ =~= input@.skip((t1 + t2 + size) as int));
                            assert(after_id@.subrange(0, size as int) =~= input@.subrange(
                                (t1 + t2) as int,
                                t1 + t2 + size,
                            ));
                        }
                        Ok((rest, Cell::TableLeaf { row_id, payload }))
                    },
                    Err(e) => Err(e),
                }
            },
            PageKind::TableInterior => {
                if input.len() < 4 {
                    return Err(Error::MalformedRecord);
                }
                let left_child_page = be_u32(input, 0);
                let after = &input[4..input.len()];
                assert(after@ =~= input@.skip(4));
                match varint(after) {
                    Ok((rest, row_id)) => {
                        let ghost t = decode(after@).unwrap().1;
                        assert(rest@ =~= input@.skip((4 + t) as int));
                        Ok((rest, Cell::TableInterior { left_child_page, row_id }))
                    },
                    Err(e) => Err(e),
                }
            },
            PageKind::IndexLeaf => {
                let (after_size, size) = match varint(input) {
                    Ok(found) => found,
                    Err(e) => {
                        return Err(e);
                    },
                };
                let ghost t = decode(input@).unwrap().1;
                match take_payload(after_size, size) {
                    Ok((rest, payload)) => {
                        proof {
                            assert(rest@ =~= input@.skip((t + size) as int));
                            assert(after_size@.subrange(0, size as int) =~= input@.subrange(
                                t as int,
                                t + size,
                            ));
                        }
                        Ok((rest, Cell::IndexLeaf { payload }))
                    },
                    Err(e) => Err(e),
                }
            },
            PageKind::IndexInterior => {
                if input.len() < 4 {
                    return Err(Error::MalformedRecord);
                }
                let left_child_page = be_u32(input, 0);
                let after = &input[4..input.len()];
                assert(after@ =~= input@.skip(4));
                let (after_size, size) = match varint(after) {
                    Ok(found) => found,
                    Err(e) => {
                        return Err(e);
                    },
                };
                let ghost t = decode(after@).unwrap().1;
                assert(after_size@ =~= input@.skip((4 + t) as int));
                match take_payload(after_size, size) {
                    Ok((rest, payload)) => {
                        proof {
                            assert(rest@ =~= input@.skip((4 + t + size) as int));
                            assert(after_size@.subrange(0, size as int) =~= input@.subrange(
                                (4 + t) as int,
                                4 + t + size,
                            ));
                        }
                        Ok((rest, Cell::IndexInterior { left_child_page, payload }))
                    },
                    Err(e) => Err(e),
                }
            },
        }
    }
}

/// What each cell of a sequence holds, in order.
pub open spec fn cells_view(cells: Seq<Cell<'_>>) -> Seq<CellView> {
    Seq::new(cells.len(), |i: int| cells[i]@)
}

/// What a [`Page`] holds.
pub struct PageView {
    pub page_id: u64,
    pub data: Seq<u8>,
    pub header: BtreeHeader,
}

impl View for Page {
    type V = PageView;

    open spec fn view(&self) -> PageView {
        PageView { page_id: self.page_id, data: self.data@, header: self.header }
    }
}

impl PageView {
    /// Where the cell pointer array starts: behind the B-tree header, which on
    /// the first page follows the 100 bytes of the database header.
    pub open spec fn pointer_start(self) -> nat {
        if self.page_id == 1 {
            108
        } else if self.header.kind.interior() {
            12
        } else {
            8
        }
    }

    /// Whether the page is long enough to hold the cell pointer array: two
    /// bytes for each cell that the header counts.
    pub open spec fn pointers_fit(self) -> bool {
        self.pointer_start() + 2 * self.header.cell_count <= self.data.len()
    }

    /// The bytes of the cell pointer array; none where the page is too short
    /// for the array.
    pub open spec fn pointer_array(self) -> Seq<u8> {
        if self.pointers_fit() {
            self.data.subrange(
                self.pointer_start() as int,
                self.pointer_start() + 2 * self.header.cell_count,
            )
        } else {
            Seq::empty()
        }
    }

    /// The `i`-th entry of the cell pointer array: the offset of a cell.
    pub open spec fn pointer(self, i: int) -> nat {
        be_value(self.pointer_array().subrange(2 * i, 2 * i + 2))
    }

    /// The cell that starts at the given offset, where the offset lies
    /// within the page and a cell can be read there.
    pub open spec fn cell(self, at: nat) -> Option<CellView> {
        if at > self.data.len() {
            None
        } else {
            match cell_at(self.header.kind, self.data.skip(at as int)) {
                Ok((cell, _)) => Some(cell),
                Err(_) => None,
            }
        }
    }

    /// The cells that the given pointers lead to, in the order of the
    /// pointers, up to the first pointer that leads to no cell. Each pointer
    /// is a big-endian number of two bytes.
    pub open spec fn cells_of(self, pointers: Seq<u8>) -> Seq<CellView>
        decreases pointers.len(),
    {
        if pointers.len() < 2 {
            Seq::empty()
        } else {
            match self.cell(be_value(pointers.take(2))) {
                None => Seq::empty(),
                Some(cell) => seq![cell] + self.cells_of(pointers.skip(2)),
            }
        }
    }

    /// The cells of the page, in the order of the cell pointer array.
    pub open spec fn cells(self) -> Seq<CellView> {
        self.cells_of(self.pointer_array())
    }
}

/// The cells of a page that are still to come: the page, and what is left
/// of its cell pointer array.
#[derive(Debug, Clone)]
pub struct CellIter<'p> {
    pub page: &'p Page,
    pub ptr_array: &'p [u8],
}

impl<'p> CellIter<'p> {
    /// The cells that are still to come.
    pub open spec fn remaining(&self) -> Seq<CellView> {
        self.page@.cells_of(self.ptr_array@)
    }

    /// The next cell. Gives none where no pointer is left or the next
    /// pointer leads to no cell; from then on no further cell comes.
    pub fn next(&mut self) -> (r: Option<Cell<'p>>)
        ensures
            final(self).page == old(self).page,
            match r {
                Some(cell) => {
                    &&& old(self).remaining().len() > 0
                    &&& old(self).remaining()[0] == cell@
                    &&& final(self).remaining() == old(self).remaining().skip(1)
                    &&& final(self).ptr_array@ == old(self).ptr_array@.skip(2)
                },
                None => old(self).remaining().len() == 0 && final(self).ptr_array@ == old(
                    self,
                ).ptr_array@,
            },
    {
        let pointers: &'p [u8] = self.ptr_array;
        let page: &'p Page = self.page;
        if pointers.len() < 2 {
            return None;
        }
        let at: usize = be_u16(pointers, 0) as usize;
        assert(pointers@.subrange(0, 2) =~= pointers@.take(2));
        let len = page.data.len();
        if at > len {
            return None;
        }
        let bytes: &'p [u8] = &page.data.as_slice()[at..len];
        assert(bytes@ =~= page@.data.skip(at as int));
        match page.header.parse_cell(bytes) {
            Ok((_, cell)) => {
                let rest: &'p [u8] = &pointers[2..pointers.len()];
                assert(rest@ =~= pointers@.skip(2));
                self.ptr_array = rest;
                proof {
                    let tail = page@.cells_of(pointers@.skip(2));
                    assert((seq![cell@] + tail).skip(1) =~= tail);
                }
                Some(cell)
            },
            Err(_) => None,
        }
    }

    /// The cells that are still to come, all of them.
    pub fn collect(self) -> (r: Vec<Cell<'p>>)
        ensures
            cells_view(r@) == self.remaining(),
    {
        let mut iter = self;
        let mut out: Vec<Cell<'p>> = Vec::new();
        assert(cells_view(out@) + iter.remaining() =~= self.remaining());
        loop
            invariant
                cells_view(out@) + iter.remaining() == self.remaining(),
            decreases iter.ptr_array@.len(),
        {
            let ghost before = iter.remaining();
            match iter.next() {
                Some(cell) => {
                    proof {
                        assert(cells_view(out@.push(cell)) =~= cells_view(out@).push(cell@));
                        assert(before =~= seq![cell@] + before.skip(1));
                        assert(cells_view(out@.push(cell)) + before.skip(1) =~= cells_view(out@)
                            + before);
                    }
                    out.push(cell);
                },
                None => {
                    assert(cells_view(out@) + before =~= cells_view(out@));
                    return out;
                },
            }
        }
    }
}

impl Page {
    /// The cells of the page in the order of the cell pointer array. A page
    /// that is too short for its pointer array gives none.
    pub fn cells<'p>(&'p self) -> (r: CellIter<'p>)
        ensures
            r.page == self,
            r.ptr_array@ == self@.pointer_array(),
            r.remaining() == self@.cells(),
    {
        let start: usize = if self.page_id == 1 {
            108
        } else if self.header.kind.is_interior() {
            12
        } else {
            8
        };
        let count: usize = self.header.cell_count as usize;
        let len: usize = self.data.len();
        let data: &'p [u8] = self.data.as_slice();
        if len < start || (len - start) / 2 < count {
            let none: &'p [u8] = &data[0..0];
            assert(none@ =~= Seq::<u8>::empty());
            CellIter { page: self, ptr_array: none }
        } else {
            CellIter { page: self, ptr_array: &data[start..start + 2 * count] }
        }
    }
}

/// Pointers lead to no more cells than there are pointers. The `i`-th cell
/// is the one that the `i`-th pointer leads to, and it starts before the
/// end of the page.
pub proof fn lemma_cells_of(page: PageView, pointers: Seq<u8>, i: int)
    requires
        0 <= i < page.cells_of(pointers).len(),
    ensures
        2 * page.cells_of(pointers).len() <= pointers.len(),
        be_value(pointers.subrange(2 * i, 2 * i + 2)) < page.data.len(),
        page.cell(be_value(pointers.subrange(2 * i, 2 * i + 2))) == Some(
            page.cells_of(pointers)[i],
        ),
    decreases pointers.len(),
{
    let rest = pointers.skip(2);
    let tail = page.cells_of(rest);
    if tail.len() > 0 {
        lemma_cells_of(page, rest, 0);
    }
    if i > 0 {
        lemma_cells_of(page, rest, i - 1);
        assert(rest.subrange(2 * (i - 1), 2 * (i - 1) + 2) =~= pointers.subrange(2 * i, 2 * i + 2));
        assert(page.cells_of(pointers)[i] == tail[i - 1]);
    } else {
        assert(pointers.subrange(0, 2) =~= pointers.take(2));
        let at = be_value(pointers.take(2));
        if at == page.data.len() {
            let bytes = page.data.skip(at as int);
            assert(bytes.len() == 0);
            assert(decode(bytes).is_none());
        }
    }
}

/// What holds of every page that is read with the given B-tree header: an
/// interior page has a rightmost child and a leaf has none; the page gives
/// no more cells than its header counts, and gives any only where the whole
/// of the cell pointer array lies within the page.
pub proof fn lemma_page_invariants(bytes: Seq<u8>, page: PageView)
    requires
        btree_header(bytes) == Ok::<BtreeHeader, Error>(page.header),
    ensures
        page.header.rightmost_pointer.is_some() <==> page.header.kind.interior(),
        page.cells().len() <= page.header.cell_count,
        page.cells().len() > 0 ==> page.pointers_fit(),
{
    if page.cells().len() > 0 {
        lemma_cells_of(page, page.pointer_array(), 0);
    }
}

/// The `i`-th cell that a page gives is the cell that the `i`-th entry of
/// the cell pointer array leads to, and it starts before the end of the page.
pub proof fn lemma_page_cell(page: PageView, i: int)
    requires
        0 <= i < page.cells().len(),
    ensures
        page.pointer(i) < page.data.len(),
        page.cell(page.pointer(i)) == Some(page.cells()[i]),
{
    lemma_cells_of(page, page.pointer_array(), i);
}

} // verus!
