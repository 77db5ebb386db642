use vstd::prelude::*;

use crate::btree::{collect_rows, page_model, page_rows_model, read_page_bytes, DbView, MAX_TREE_DEPTH};
use crate::error::Error;
use crate::header::{
    file_header_model, logical_page_size, table_metadata_model, FileHeader, TableMetadata,
};
use crate::record::TableLeafCell;
use crate::schema::{
    entries_view, names_view, schema_entries_from_rows, schema_entries_model, table_names,
    tables_model, SchemaEntry,
};

verus! {

/// An open database: the byte image of the file and the header fields the
/// decoder needs. Nothing is mutated after opening.
#[derive(Debug)]
pub struct Db {
    pub bytes: Vec<u8>,
    pub metadata: TableMetadata,
    pub page_size: u32,
    pub page_count: u32,
}

impl View for Db {
    type V = DbView;

    open spec fn view(&self) -> DbView {
        DbView {
            file: self.bytes@,
            page_size: self.page_size as int,
            page_count: self.page_count as int,
        }
    }
}

impl Db {
    /// A well-formed handle: the stored fields are exactly what decoding
    /// the byte image's header yields.
    pub open spec fn wf(&self) -> bool {
        &&& table_metadata_model(self.bytes@) == Result::<TableMetadata, Error>::Ok(self.metadata)
        &&& file_header_model(self.bytes@) matches Ok(h) && self.page_size as int
            == logical_page_size(h.page_size) && self.page_count == h.page_count
    }

    /// Opens a database from the byte image of its file: validates the
    /// file header and reads the schema row count from page 1's header.
    pub fn open(bytes: Vec<u8>) -> (r: Result<Db, Error>)
        ensures
            (r is Ok) == (table_metadata_model(bytes@) is Ok),
            r matches Ok(db) ==> {
                &&& db.wf()
                &&& db@.file == bytes@
                &&& table_metadata_model(bytes@) matches Ok(m) && db.metadata == m
            },
            r matches Err(e) ==> table_metadata_model(bytes@) matches Err(m) && e == m,
    {
        let metadata = match TableMetadata::parse(bytes.as_slice()) {
            Ok(m) => m,
            Err(e) => {
                return Err(e);
            },
        };
        let header = match FileHeader::parse(bytes.as_slice()) {
            Ok(h) => h,
            Err(e) => {
                proof {
                    assert(false);
                }
                return Err(e);
            },
        };
        let page_size: u32 = if header.page_size == 1 {
            65536
        } else {
            header.page_size as u32
        };
        Ok(Db { bytes, metadata, page_size, page_count: header.page_count })
    }

    /// The database metadata parsed at open time.
    pub fn metadata(&self) -> (m: TableMetadata)
        ensures
            m == self.metadata,
    {
        self.metadata
    }

    /// Fetches page `root` of the image: `page_size` bytes starting at
    /// `(root - 1) * page_size`. Pages are numbered from 1.
    pub fn read_page(&self, root: u32) -> (r: Result<Vec<u8>, Error>)
        ensures
            (r is Ok) == (page_model(self@, root as int) is Ok),
            r matches Ok(p) ==> page_model(self@, root as int) matches Ok(m) && p@ == m,
            r matches Err(e) ==> page_model(self@, root as int) matches Err(m) && e == m,
    {
        read_page_bytes(self.bytes.as_slice(), self.page_size, self.page_count, root)
    }

    /// Collects every row of the table B-tree rooted at `root_page`,
    /// depth-first and in cell-pointer order.
    pub fn rows_of(&self, root_page: u32) -> (r: Result<Vec<TableLeafCell>, Error>)
        ensures
            (r is Ok) == (page_rows_model(self@, root_page as int, MAX_TREE_DEPTH as int) is Ok),
            r matches Ok(rows) ==> page_rows_model(self@, root_page as int, MAX_TREE_DEPTH as int)
                matches Ok(m) && crate::btree::cells_view(rows@) == m,
            r matches Err(e) ==> page_rows_model(self@, root_page as int, MAX_TREE_DEPTH as int)
                matches Err(m) && e == m,
    {
        collect_rows(
            self.bytes.as_slice(),
            self.page_size,
            self.page_count,
            root_page,
            MAX_TREE_DEPTH,
        )
    }

    /// Decodes the whole schema table, rooted at page 1.
    pub fn schema_entries(&self) -> (r: Result<Vec<SchemaEntry>, Error>)
        ensures
            r matches Ok(es) ==> page_rows_model(self@, 1, MAX_TREE_DEPTH as int) matches Ok(rows)
                && schema_entries_model(rows, 0) matches Ok(m) && entries_view(es@) == m,
            r matches Err(e) ==> (page_rows_model(self@, 1, MAX_TREE_DEPTH as int) matches Err(m)
                && e == m) || (page_rows_model(self@, 1, MAX_TREE_DEPTH as int) matches Ok(rows)
                && schema_entries_model(rows, 0) matches Err(m) && e == m),
    {
        let rows = match self.rows_of(1) {
            Ok(rows) => rows,
            Err(e) => {
                return Err(e);
            },
        };
        schema_entries_from_rows(&rows)
    }

    /// Lists the names of the user tables, in schema order: rows of type
    /// "table" whose name does not start with the internal prefix.
    pub fn tables(&self) -> (r: Result<Vec<Vec<u8>>, Error>)
        ensures
            (r is Ok) == (tables_model(self@) is Ok),
            r matches Ok(names) ==> tables_model(self@) matches Ok(m) && names_view(names@) == m,
            r matches Err(e) ==> tables_model(self@) matches Err(m) && e == m,
    {
        let entries = match self.schema_entries() {
            Ok(es) => es,
            Err(e) => {
                return Err(e);
            },
        };
        Ok(table_names(&entries))
    }
}

} // verus!
