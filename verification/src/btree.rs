use vstd::prelude::*;

use crate::bytes::{be32, copy_range, read_be32};
use crate::error::Error;
use crate::page::{page_header_model, BTreeHeader, PageKind};
use crate::record::{decode_table_leaf_cell, leaf_cell_model, CellModel, TableLeafCell};
use crate::varint::{varint_complete, VarInt};

verus! {

/// The recursion bound for a tree walk. No well-formed B-tree comes close
/// to this height, so running out of depth means the page structure is
/// cyclic or otherwise malformed.
pub const MAX_TREE_DEPTH: u32 = 32;

/// The shape of a database image: its bytes, its logical page size, and its
/// page count.
pub ghost struct DbView {
    pub file: Seq<u8>,
    pub page_size: int,
    pub page_count: int,
}

/// Fetching page `n`: pages are numbered from 1 and laid out back to back,
/// so page `n` occupies bytes `(n - 1) * page_size` up to `n * page_size`.
pub open spec fn page_model(v: DbView, n: int) -> Result<Seq<u8>, Error> {
    if n < 1 || n > v.page_count {
        Err(Error::InvalidPageNumber)
    } else if n * v.page_size > v.file.len() {
        Err(Error::IoError)
    } else {
        Ok(v.file.subrange((n - 1) * v.page_size, n * v.page_size))
    }
}

pub open spec fn cells_view(s: Seq<TableLeafCell>) -> Seq<CellModel> {
    s.map_values(|c: TableLeafCell| c@)
}

/// Turns the rows decoded so far and the result for the remaining cells
/// into the result for all cells.
pub open spec fn prepend_rows(prefix: Seq<CellModel>, r: Result<Seq<CellModel>, Error>) -> Result<
    Seq<CellModel>,
    Error,
> {
    match r {
        Ok(rest) => Ok(prefix + rest),
        Err(e) => Err(e),
    }
}

/// The rows of a table-leaf page: one decoded cell per cell pointer, in
/// cell-pointer order, which is the table's row order.
pub open spec fn leaf_cells_model(
    page: Seq<u8>,
    page_size: int,
    ptrs: Seq<u16>,
    i: int,
) -> Result<Seq<CellModel>, Error>
    decreases ptrs.len() - i,
{
    if i >= ptrs.len() {
        Ok(Seq::empty())
    } else {
        match leaf_cell_model(page, ptrs[i] as int, page_size) {
            Err(e) => Err(e),
            Ok(c) => match leaf_cells_model(page, page_size, ptrs, i + 1) {
                Err(e) => Err(e),
                Ok(rest) => Ok(seq![c] + rest),
            },
        }
    }
}

/// The rows under the cells of an interior table page: each cell holds a
/// 4-byte big-endian child page number followed by a varint key, and the
/// rows of the children are concatenated in cell-pointer order.
pub open spec fn interior_cells_model(
    v: DbView,
    page: Seq<u8>,
    ptrs: Seq<u16>,
    i: int,
    depth: int,
) -> Result<Seq<CellModel>, Error>
    decreases depth, 0int, ptrs.len() - i,
{
    if depth < 1 {
        Err(Error::MalformedTree)
    } else if i >= ptrs.len() {
        Ok(Seq::empty())
    } else {
        let p = ptrs[i] as int;
        if p + 4 > page.len() {
            Err(Error::TruncatedInput)
        } else if !varint_complete(page.skip(p + 4)) {
            Err(Error::TruncatedInput)
        } else {
            let child = be32(page[p], page[p + 1], page[p + 2], page[p + 3]);
            match page_rows_model(v, child, depth - 1) {
                Err(e) => Err(e),
                Ok(rows) => match interior_cells_model(v, page, ptrs, i + 1, depth) {
                    Err(e) => Err(e),
                    Ok(rest) => Ok(rows + rest),
                },
            }
        }
    }
}

/// The rows of the table B-tree rooted at `pageno`: a table-leaf page
/// yields its own cells; an interior table page yields the rows of each
/// cell's child in cell order, followed by the rows reached through the
/// right-most pointer; index pages do not belong in a table tree.
pub open spec fn page_rows_model(v: DbView, pageno: int, depth: int) -> Result<
    Seq<CellModel>,
    Error,
>
    decreases depth, 1int, 0int,
{
    if depth < 1 {
        Err(Error::MalformedTree)
    } else {
        match page_model(v, pageno) {
            Err(e) => Err(e),
            Ok(page) => {
                let off: int = if pageno == 1 {
                    100
                } else {
                    0
                };
                match page_header_model(page, off) {
                    Err(e) => Err(e),
                    Ok(h) => match h.kind {
                        PageKind::LeafTable => leaf_cells_model(
                            page,
                            v.page_size,
                            h.cell_pointers,
                            0,
                        ),
                        PageKind::InteriorTable => match interior_cells_model(
                            v,
                            page,
                            h.cell_pointers,
                            0,
                            depth,
                        ) {
                            Err(e) => Err(e),
                            Ok(rows) => match page_rows_model(
                                v,
                                h.right_most_pointer->Some_0 as int,
                                depth - 1,
                            ) {
                                Err(e) => Err(e),
                                Ok(rm_rows) => Ok(rows + rm_rows),
                            },
                        },
                        _ => Err(Error::UnexpectedPageKind),
                    },
                }
            },
        }
    }
}

/// A table-leaf page with a cell count of zero yields no rows, and no
/// error: an empty table is a well-formed tree of one page.
pub proof fn lemma_empty_leaf_page_yields_no_rows(v: DbView, pageno: int, depth: int)
    requires
        depth >= 1,
        page_model(v, pageno) is Ok,
        page_header_model(page_model(v, pageno)->Ok_0, if pageno == 1 { 100int } else { 0int })
            matches Ok(h) && h.kind == PageKind::LeafTable && h.number_of_cells == 0,
    ensures
        page_rows_model(v, pageno, depth) == Result::<Seq<CellModel>, Error>::Ok(Seq::empty()),
{
    let page = page_model(v, pageno)->Ok_0;
    let off: int = if pageno == 1 {
        100
    } else {
        0
    };
    let h = page_header_model(page, off)->Ok_0;
    assert(h.cell_pointers.len() == 0);
}

/// The rows of an interior table page whose single cell and right-most
/// pointer lead to two children come out in order: every row of the left
/// child before every row of the right one.
pub proof fn lemma_interior_two_children_order(v: DbView, pageno: int, depth: int)
    requires
        depth >= 2,
        page_model(v, pageno) is Ok,
        page_header_model(page_model(v, pageno)->Ok_0, if pageno == 1 { 100int } else { 0int })
            matches Ok(h) && h.kind == PageKind::InteriorTable && h.cell_pointers.len() == 1,
        interior_cells_model(
            v,
            page_model(v, pageno)->Ok_0,
            page_header_model(
                page_model(v, pageno)->Ok_0,
                if pageno == 1 { 100int } else { 0int },
            )->Ok_0.cell_pointers,
            0,
            depth,
        ) is Ok,
        page_rows_model(
            v,
            page_header_model(
                page_model(v, pageno)->Ok_0,
                if pageno == 1 { 100int } else { 0int },
            )->Ok_0.right_most_pointer->Some_0 as int,
            depth - 1,
        ) is Ok,
    ensures
        ({
            let page = page_model(v, pageno)->Ok_0;
            let off: int = if pageno == 1 { 100 } else { 0 };
            let h = page_header_model(page, off)->Ok_0;
            let p = h.cell_pointers[0] as int;
            let left = be32(page[p], page[p + 1], page[p + 2], page[p + 3]);
            page_rows_model(v, pageno, depth) == Result::<Seq<CellModel>, Error>::Ok(
                page_rows_model(v, left, depth - 1)->Ok_0 + page_rows_model(
                    v,
                    h.right_most_pointer->Some_0 as int,
                    depth - 1,
                )->Ok_0,
            )
        }),
{
    let page = page_model(v, pageno)->Ok_0;
    let off: int = if pageno == 1 {
        100
    } else {
        0
    };
    let h = page_header_model(page, off)->Ok_0;
    let p = h.cell_pointers[0] as int;
    let left = be32(page[p], page[p + 1], page[p + 2], page[p + 3]);
    let left_rows = page_rows_model(v, left, depth - 1)->Ok_0;
    assert(interior_cells_model(v, page, h.cell_pointers, 1, depth) == Result::<
        Seq<CellModel>,
        Error,
    >::Ok(Seq::empty()));
    assert(left_rows + Seq::<CellModel>::empty() =~= left_rows);
}

/// Fetches page `n` of the image as a fresh byte vector.
pub fn read_page_bytes(file: &[u8], page_size: u32, page_count: u32, n: u32) -> (r: Result<
    Vec<u8>,
    Error,
>)
    ensures
        ({
            let v = DbView { file: file@, page_size: page_size as int, page_count: page_count as int };
            &&& (r is Ok) == (page_model(v, n as int) is Ok)
            &&& (r matches Ok(p) ==> page_model(v, n as int) matches Ok(m) && p@ == m)
            &&& (r matches Err(e) ==> page_model(v, n as int) matches Err(m) && e == m)
        }),
{
    if n == 0 || n > page_count {
        return Err(Error::InvalidPageNumber);
    }
    proof {
        assert((n as int - 1) * (page_size as int) + page_size as int == n as int * (
        page_size as int)) by (nonlinear_arith);
        assert((n as int - 1) * (page_size as int) + (page_size as int)
            < 0x1_0000_0000_0000_0000) by (nonlinear_arith)
            requires
                1 <= n as int && (n as int) < 0x1_0000_0000,
                0 <= page_size as int && (page_size as int) < 0x1_0000_0000,
        ;
    }
    let start64 = (n as u64 - 1) * (page_size as u64);
    let end64 = start64 + page_size as u64;
    if end64 > file.len() as u64 {
        return Err(Error::IoError);
    }
    let start = start64 as usize;
    let end = end64 as usize;
    Ok(copy_range(file, start, end))
}

/// Collects every row of the table B-tree rooted at `pageno`, depth-first
/// and in cell-pointer order.
#[verifier::loop_isolation(false)]
#[verifier::rlimit(60)]
pub fn collect_rows(
    file: &[u8],
    page_size: u32,
    page_count: u32,
    pageno: u32,
    depth: u32,
) -> (r: Result<Vec<TableLeafCell>, Error>)
    ensures
        ({
            let v = DbView { file: file@, page_size: page_size as int, page_count: page_count as int };
            &&& (r is Ok) == (page_rows_model(v, pageno as int, depth as int) is Ok)
            &&& (r matches Ok(rows) ==> page_rows_model(v, pageno as int, depth as int) matches Ok(
                m,
            ) && cells_view(rows@) == m)
            &&& (r matches Err(e) ==> page_rows_model(v, pageno as int, depth as int) matches Err(
                m,
            ) && e == m)
        }),
    decreases depth,
{
    let ghost v = DbView { file: file@, page_size: page_size as int, page_count: page_count as int };
    if depth == 0 {
        return Err(Error::MalformedTree);
    }
    let page = match read_page_bytes(file, page_size, page_count, pageno) {
        Ok(p) => p,
        Err(e) => {
            return Err(e);
        },
    };
    let off: usize = if pageno == 1 {
        100
    } else {
        0
    };
    let header = match BTreeHeader::parse(page.as_slice(), off) {
        Ok(h) => h,
        Err(e) => {
            return Err(e);
        },
    };
    let is_leaf_table = match header.kind {
        PageKind::LeafTable => true,
        _ => false,
    };
    let is_interior_table = match header.kind {
        PageKind::InteriorTable => true,
        _ => false,
    };
    if is_leaf_table {
        let ghost ptrs = header.cell_pointers@;
        let mut rows: Vec<TableLeafCell> = Vec::new();
        let mut i: usize = 0;
        proof {
            match leaf_cells_model(page@, v.page_size, ptrs, 0) {
                Ok(rest) => {
                    assert(cells_view(rows@) + rest =~= rest);
                },
                Err(_) => {},
            }
        }
        while i < header.cell_pointers.len()
            invariant
                i <= header.cell_pointers.len(),
                leaf_cells_model(page@, v.page_size, ptrs, 0) == prepend_rows(
                    cells_view(rows@),
                    leaf_cells_model(page@, v.page_size, ptrs, i as int),
                ),
            decreases header.cell_pointers.len() - i,
        {
            let ptr = header.cell_pointers[i];
            let cell = match decode_table_leaf_cell(page.as_slice(), ptr as usize, page_size) {
                Ok(c) => c,
                Err(e) => {
                    return Err(e);
                },
            };
            let ghost pre = cells_view(rows@);
            rows.push(cell);
            proof {
                assert(cells_view(rows@) =~= pre.push(cell@));
                match leaf_cells_model(page@, v.page_size, ptrs, i + 1) {
                    Ok(rest) => {
                        assert(pre + (seq![cell@] + rest) =~= pre.push(cell@) + rest);
                    },
                    Err(_) => {},
                }
            }
            i = i + 1;
        }
        proof {
            assert(cells_view(rows@) + Seq::<CellModel>::empty() =~= cells_view(rows@));
        }
        Ok(rows)
    } else if is_interior_table {
        let ghost ptrs = header.cell_pointers@;
        let n = page.len();
        let mut rows: Vec<TableLeafCell> = Vec::new();
        let mut i: usize = 0;
        proof {
            match interior_cells_model(v, page@, ptrs, 0, depth as int) {
                Ok(rest) => {
                    assert(cells_view(rows@) + rest =~= rest);
                },
                Err(_) => {},
            }
        }
        while i < header.cell_pointers.len()
            invariant
                i <= header.cell_pointers.len(),
                interior_cells_model(v, page@, ptrs, 0, depth as int) == prepend_rows(
                    cells_view(rows@),
                    interior_cells_model(v, page@, ptrs, i as int, depth as int),
                ),
            decreases header.cell_pointers.len() - i,
        {
            let p = header.cell_pointers[i] as usize;
            if p >= n || n - p < 4 {
                return Err(Error::TruncatedInput);
            }
            let child = read_be32(page.as_slice(), p);
            match VarInt::read(page.as_slice(), p + 4) {
                Ok(_) => {},
                Err(e) => {
                    return Err(e);
                },
            };
            let mut sub = match collect_rows(file, page_size, page_count, child, depth - 1) {
                Ok(s) => s,
                Err(e) => {
                    return Err(e);
                },
            };
            let ghost pre = cells_view(rows@);
            let ghost sub_rows = cells_view(sub@);
            rows.append(&mut sub);
            proof {
                assert(cells_view(rows@) =~= pre + sub_rows);
                match interior_cells_model(v, page@, ptrs, i + 1, depth as int) {
                    Ok(rest) => {
                        assert(pre + (sub_rows + rest) =~= (pre + sub_rows) + rest);
                    },
                    Err(_) => {},
                }
            }
            i = i + 1;
        }
        proof {
            assert(cells_view(rows@) + Seq::<CellModel>::empty() =~= cells_view(rows@));
        }
        let rm = match header.right_most_pointer {
            Some(rm) => rm,
            None => {
                proof {
                    assert(false);
                }
                return Err(Error::MalformedTree);
            },
        };
        let mut rm_rows = match collect_rows(file, page_size, page_count, rm, depth - 1) {
            Ok(s) => s,
            Err(e) => {
                return Err(e);
            },
        };
        let ghost pre = cells_view(rows@);
        let ghost tail_rows = cells_view(rm_rows@);
        rows.append(&mut rm_rows);
        proof {
            assert(cells_view(rows@) =~= pre + tail_rows);
        }
        Ok(rows)
    } else {
        Err(Error::UnexpectedPageKind)
    }
}

} // verus!
