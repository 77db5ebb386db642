use vstd::prelude::*;

use crate::bytes::{be16, be32, read_be16, read_be32};
use crate::error::Error;

verus! {

/// The fields of the fixed 100-byte file header that this decoder uses.
/// `page_size` is the raw stored 16-bit field: a power of two, with the
/// special encoded value 1 standing for a logical page size of 65536.
#[derive(Clone, Copy, Debug, PartialEq, Eq, Structural)]
pub struct FileHeader {
    pub page_size: u16,
    pub page_count: u32,
}

/// What the first page of the file tells about the whole database: the raw
/// page-size field and the number of rows of the schema table, read from the
/// cell count of page 1's B-tree header.
#[derive(Clone, Copy, Debug, PartialEq, Eq, Structural)]
pub struct TableMetadata {
    pub page_size: u16,
    pub number_of_tables: u16,
}

/// The byte at index `i` of the 16-byte magic string that opens every
/// database file.
pub open spec fn magic_byte(i: int) -> u8 {
    if i == 0 {
        0x53
    } else if i == 1 {
        0x51
    } else if i == 2 {
        0x4c
    } else if i == 3 {
        0x69
    } else if i == 4 {
        0x74
    } else if i == 5 {
        0x65
    } else if i == 6 {
        0x20
    } else if i == 7 {
        0x66
    } else if i == 8 {
        0x6f
    } else if i == 9 {
        0x72
    } else if i == 10 {
        0x6d
    } else if i == 11 {
        0x61
    } else if i == 12 {
        0x74
    } else if i == 13 {
        0x20
    } else if i == 14 {
        0x33
    } else {
        0x00
    }
}

/// The 16-byte magic string.
pub open spec fn magic() -> Seq<u8> {
    Seq::new(16, |i: int| magic_byte(i))
}

/// The legal values of the stored page-size field: the powers of two that
/// fit in 16 bits, where 1 encodes 65536.
pub open spec fn valid_page_size_field(v: u16) -> bool {
    ||| v == 1
    ||| v == 2
    ||| v == 4
    ||| v == 8
    ||| v == 16
    ||| v == 32
    ||| v == 64
    ||| v == 128
    ||| v == 256
    ||| v == 512
    ||| v == 1024
    ||| v == 2048
    ||| v == 4096
    ||| v == 8192
    ||| v == 16384
    ||| v == 32768
}

/// The logical page size encoded by the stored field.
pub open spec fn logical_page_size(v: u16) -> int {
    if v == 1 {
        65536
    } else {
        v as int
    }
}

/// The page count after reconciling the stored field with the file length:
/// a stored zero is replaced by the count the file length implies, capped at
/// what the 32-bit field could have held.
pub open spec fn reconciled_page_count(raw: int, file_len: int, page_size: int) -> int {
    if raw != 0 {
        raw
    } else if file_len / page_size > 0xffff_ffff {
        0xffff_ffff
    } else {
        file_len / page_size
    }
}

/// Decoding the fixed file header: the magic string must match, the
/// page-size field at offset 16 must be a legal encoding, and the page count
/// comes from offset 28, reconciled with the file length.
pub open spec fn file_header_model(file: Seq<u8>) -> Result<FileHeader, Error> {
    if file.len() < 100 {
        Err(Error::IoError)
    } else if file.subrange(0, 16) != magic() {
        Err(Error::NotADatabaseFile)
    } else if !valid_page_size_field(be16(file[16], file[17]) as u16) {
        Err(Error::CorruptHeader)
    } else {
        let raw_size = be16(file[16], file[17]) as u16;
        let raw_count = be32(file[28], file[29], file[30], file[31]);
        Ok(
            FileHeader {
                page_size: raw_size,
                page_count: reconciled_page_count(
                    raw_count,
                    file.len() as int,
                    logical_page_size(raw_size),
                ) as u32,
            },
        )
    }
}

/// Decoding the database metadata: the file header followed by the cell
/// count of page 1's B-tree header, which starts at offset 100 and keeps its
/// cell count at bytes 103 and 104 of the file.
pub open spec fn table_metadata_model(file: Seq<u8>) -> Result<TableMetadata, Error> {
    match file_header_model(file) {
        Err(e) => Err(e),
        Ok(h) => {
            if file.len() < 108 {
                Err(Error::IoError)
            } else {
                Ok(
                    TableMetadata {
                        page_size: h.page_size,
                        number_of_tables: be16(file[103], file[104]) as u16,
                    },
                )
            }
        },
    }
}

/// The byte at index `i` of the magic string, for the scan below.
fn magic_byte_at(i: usize) -> (r: u8)
    requires
        i < 16,
    ensures
        r == magic_byte(i as int),
{
    if i == 0 {
        0x53
    } else if i == 1 {
        0x51
    } else if i == 2 {
        0x4c
    } else if i == 3 {
        0x69
    } else if i == 4 {
        0x74
    } else if i == 5 {
        0x65
    } else if i == 6 {
        0x20
    } else if i == 7 {
        0x66
    } else if i == 8 {
        0x6f
    } else if i == 9 {
        0x72
    } else if i == 10 {
        0x6d
    } else if i == 11 {
        0x61
    } else if i == 12 {
        0x74
    } else if i == 13 {
        0x20
    } else if i == 14 {
        0x33
    } else {
        0x00
    }
}

/// Whether the stored page-size field is a legal encoding.
fn is_valid_page_size_field(v: u16) -> (r: bool)
    ensures
        r == valid_page_size_field(v),
{
    v == 1 || v == 2 || v == 4 || v == 8 || v == 16 || v == 32 || v == 64 || v == 128 || v == 256
        || v == 512 || v == 1024 || v == 2048 || v == 4096 || v == 8192 || v == 16384 || v == 32768
}

impl FileHeader {
    /// Decodes the fixed file header from the start of the byte image.
    #[verifier::loop_isolation(false)]
    pub fn parse(file: &[u8]) -> (r: Result<FileHeader, Error>)
        ensures
            (r is Ok) == (file_header_model(file@) is Ok),
            r matches Ok(h) ==> file_header_model(file@) == Result::<FileHeader, Error>::Ok(h),
            r matches Err(e) ==> file_header_model(file@) == Result::<FileHeader, Error>::Err(e),
    {
        let n = file.len();
        if n < 100 {
            return Err(Error::IoError);
        }
        let mut i: usize = 0;
        while i < 16
            invariant
                i <= 16,
                forall|k: int| 0 <= k < i ==> file@[k] == magic()[k],
            decreases 16 - i,
        {
            if file[i] != magic_byte_at(i) {
                proof {
                    assert(file@.subrange(0, 16)[i as int] != magic()[i as int]);
                }
                return Err(Error::NotADatabaseFile);
            }
            i = i + 1;
        }
        proof {
            assert(file@.subrange(0, 16) =~= magic());
        }
        let raw_size = read_be16(file, 16);
        if !is_valid_page_size_field(raw_size) {
            return Err(Error::CorruptHeader);
        }
        let raw_count = read_be32(file, 28);
        let logical: u64 = if raw_size == 1 {
            65536
        } else {
            raw_size as u64
        };
        let page_count: u32 = if raw_count != 0 {
            raw_count
        } else {
            let implied = (n as u64) / logical;
            if implied > 0xffff_ffff {
                0xffff_ffff
            } else {
                implied as u32
            }
        };
        proof {
            assert(logical as int == logical_page_size(raw_size));
            assert(page_count as int == reconciled_page_count(
                raw_count as int,
                file@.len() as int,
                logical_page_size(raw_size),
            ));
        }
        Ok(FileHeader { page_size: raw_size, page_count })
    }
}

impl TableMetadata {
    /// Decodes the database metadata: the validated file header plus the
    /// schema table's row count from page 1's B-tree header.
    pub fn parse(file: &[u8]) -> (r: Result<TableMetadata, Error>)
        ensures
            (r is Ok) == (table_metadata_model(file@) is Ok),
            r matches Ok(m) ==> table_metadata_model(file@) == Result::<TableMetadata, Error>::Ok(
                m,
            ),
            r matches Err(e) ==> table_metadata_model(file@) == Result::<TableMetadata, Error>::Err(
                e,
            ),
    {
        let header = match FileHeader::parse(file) {
            Ok(h) => h,
            Err(e) => {
                return Err(e);
            },
        };
        if file.len() < 108 {
            return Err(Error::IoError);
        }
        let number_of_tables = read_be16(file, 103);
        Ok(TableMetadata { page_size: header.page_size, number_of_tables })
    }
}

} // verus!
