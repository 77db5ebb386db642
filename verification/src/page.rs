use vstd::prelude::*;

use crate::bytes::{be16, be32, read_be16, read_be32};
use crate::error::Error;

verus! {

/// The four kinds of B-tree page.
#[derive(Clone, Copy, Debug, PartialEq, Eq, Structural)]
pub enum PageKind {
    InteriorIndex,
    InteriorTable,
    LeafIndex,
    LeafTable,
}

/// The decoded B-tree page header: the page kind, the cell count, the raw
/// content-area offset (0 encodes 65536), the cell-pointer array, and, for
/// interior pages only, the right-most child page number.
#[derive(Debug, PartialEq, Eq)]
pub struct BTreeHeader {
    pub kind: PageKind,
    pub number_of_cells: u16,
    pub content_area_offset: u16,
    pub cell_pointers: Vec<u16>,
    pub right_most_pointer: Option<u32>,
}

/// The mathematical view of a decoded page header.
pub ghost struct BTreeHeaderModel {
    pub kind: PageKind,
    pub number_of_cells: u16,
    pub content_area_offset: u16,
    pub cell_pointers: Seq<u16>,
    pub right_most_pointer: Option<u32>,
}

impl View for BTreeHeader {
    type V = BTreeHeaderModel;

    open spec fn view(&self) -> BTreeHeaderModel {
        BTreeHeaderModel {
            kind: self.kind,
            number_of_cells: self.number_of_cells,
            content_area_offset: self.content_area_offset,
            cell_pointers: self.cell_pointers@,
            right_most_pointer: self.right_most_pointer,
        }
    }
}

/// The page kind encoded by a page's first header byte, if any.
pub open spec fn page_kind_of_byte(b: u8) -> Option<PageKind> {
    if b == 0x02 {
        Some(PageKind::InteriorIndex)
    } else if b == 0x05 {
        Some(PageKind::InteriorTable)
    } else if b == 0x0a {
        Some(PageKind::LeafIndex)
    } else if b == 0x0d {
        Some(PageKind::LeafTable)
    } else {
        None
    }
}

pub open spec fn is_interior(kind: PageKind) -> bool {
    kind == PageKind::InteriorIndex || kind == PageKind::InteriorTable
}

/// The fixed header length: 8 bytes for leaf pages, 12 for interior pages,
/// whose header also carries the right-most child pointer.
pub open spec fn header_length(kind: PageKind) -> int {
    if is_interior(kind) {
        12
    } else {
        8
    }
}

/// Decoding a page header at in-page offset `off` (0 everywhere except page
/// 1, where the file header occupies the first 100 bytes): the kind byte,
/// the big-endian cell count at `off + 3`, the content-area offset at
/// `off + 5`, the right-most pointer at `off + 8` for interior pages, and
/// the cell-pointer array immediately after the fixed header.
pub open spec fn page_header_model(page: Seq<u8>, off: int) -> Result<BTreeHeaderModel, Error> {
    if off + 8 > page.len() {
        Err(Error::TruncatedInput)
    } else {
        match page_kind_of_byte(page[off]) {
            None => Err(Error::InvalidPageType),
            Some(kind) => {
                let cells = be16(page[off + 3], page[off + 4]);
                let content = be16(page[off + 5], page[off + 6]);
                let array_start = off + header_length(kind);
                if is_interior(kind) && off + 12 > page.len() {
                    Err(Error::TruncatedInput)
                } else if array_start + 2 * cells > page.len() {
                    Err(Error::TruncatedInput)
                } else {
                    Ok(
                        BTreeHeaderModel {
                            kind,
                            number_of_cells: cells as u16,
                            content_area_offset: content as u16,
                            cell_pointers: Seq::new(
                                cells as nat,
                                |i: int|
                                    be16(
                                        page[array_start + 2 * i],
                                        page[array_start + 2 * i + 1],
                                    ) as u16,
                            ),
                            right_most_pointer: if is_interior(kind) {
                                Some(
                                    be32(
                                        page[off + 8],
                                        page[off + 9],
                                        page[off + 10],
                                        page[off + 11],
                                    ) as u32,
                                )
                            } else {
                                None
                            },
                        },
                    )
                }
            },
        }
    }
}

impl BTreeHeader {
    /// Decodes the B-tree page header of `page` at in-page offset `off`.
    #[verifier::loop_isolation(false)]
    pub fn parse(page: &[u8], off: usize) -> (r: Result<BTreeHeader, Error>)
        ensures
            (r is Ok) == (page_header_model(page@, off as int) is Ok),
            r matches Ok(h) ==> page_header_model(page@, off as int) matches Ok(m) && h@ == m,
            r matches Err(e) ==> page_header_model(page@, off as int) matches Err(m) && e == m,
    {
        let n = page.len();
        if off >= n || n - off < 8 {
            return Err(Error::TruncatedInput);
        }
        let kind = match page[off] {
            0x02 => PageKind::InteriorIndex,
            0x05 => PageKind::InteriorTable,
            0x0a => PageKind::LeafIndex,
            0x0d => PageKind::LeafTable,
            _ => {
                return Err(Error::InvalidPageType);
            },
        };
        let cells = read_be16(page, off + 3);
        let content = read_be16(page, off + 5);
        let interior = match kind {
            PageKind::InteriorIndex => true,
            PageKind::InteriorTable => true,
            _ => false,
        };
        if interior && n - off < 12 {
            return Err(Error::TruncatedInput);
        }
        let right_most_pointer: Option<u32> = if interior {
            Some(read_be32(page, off + 8))
        } else {
            None
        };
        let array_start: usize = if interior {
            off + 12
        } else {
            off + 8
        };
        if (cells as usize) > (n - array_start) / 2 {
            return Err(Error::TruncatedInput);
        }
        let ghost ptrs = Seq::new(
            cells as nat,
            |i: int| be16(page@[array_start + 2 * i], page@[array_start + 2 * i + 1]) as u16,
        );
        let mut cell_pointers: Vec<u16> = Vec::new();
        let mut i: usize = 0;
        while i < cells as usize
            invariant
                i <= cells,
                cell_pointers@ =~= ptrs.take(i as int),
            decreases cells - i,
        {
            let p = read_be16(page, array_start + 2 * i);
            cell_pointers.push(p);
            proof {
                assert(cell_pointers@ =~= ptrs.take(i as int + 1));
            }
            i = i + 1;
        }
        proof {
            assert(cell_pointers@ =~= ptrs);
        }
        Ok(BTreeHeader { kind, number_of_cells: cells, content_area_offset: content, cell_pointers, right_most_pointer })
    }
}

} // verus!
