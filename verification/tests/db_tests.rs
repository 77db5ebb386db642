use dbfile::db::Db;
use dbfile::error::Error;
use dbfile::page::{BTreeHeader, PageKind};

const MAGIC: [u8; 16] = [
    0x53, 0x51, 0x4c, 0x69, 0x74, 0x65, 0x20, 0x66, 0x6f, 0x72, 0x6d, 0x61, 0x74, 0x20, 0x33, 0x00,
];

/// The fixed 100-byte file header with the given page-size field and page
/// count.
fn file_header(page_size: u16, page_count: u32) -> Vec<u8> {
    let mut h = vec![0u8; 100];
    h[0..16].copy_from_slice(&MAGIC);
    h[16..18].copy_from_slice(&page_size.to_be_bytes());
    h[28..32].copy_from_slice(&page_count.to_be_bytes());
    h
}

/// A page of `page_size` bytes whose B-tree header starts at `base` (100 on
/// page 1, 0 elsewhere), holding the given cells from the end of the page.
/// For interior kinds the right-most pointer is written too.
fn page_with_cells(
    page_size: usize,
    base: usize,
    type_byte: u8,
    cells: &[Vec<u8>],
    right_most: u32,
) -> Vec<u8> {
    let mut page = vec![0u8; page_size];
    page[base] = type_byte;
    let interior = type_byte == 0x02 || type_byte == 0x05;
    let header_len = if interior { 12 } else { 8 };
    page[base + 3..base + 5].copy_from_slice(&(cells.len() as u16).to_be_bytes());
    if interior {
        page[base + 8..base + 12].copy_from_slice(&right_most.to_be_bytes());
    }
    let mut pos = page_size;
    for (i, cell) in cells.iter().enumerate() {
        pos -= cell.len();
        page[pos..pos + cell.len()].copy_from_slice(cell);
        let ptr_at = base + header_len + 2 * i;
        page[ptr_at..ptr_at + 2].copy_from_slice(&(pos as u16).to_be_bytes());
    }
    page[base + 5..base + 7].copy_from_slice(&(pos as u16).to_be_bytes());
    page
}

/// Page 1: the file header spliced over the start of a B-tree page.
fn schema_page(page_size: usize, page_count: u32, cells: &[Vec<u8>]) -> Vec<u8> {
    let mut page = page_with_cells(page_size, 100, 0x0d, cells, 0);
    let header = file_header(page_size as u16, page_count);
    page[0..100].copy_from_slice(&header);
    page
}

/// A schema-table cell: row id, then a record of the five schema columns
/// (type "table", name, table name, a one-byte root page, and SQL text).
fn schema_cell(row_id: u8, name: &[u8], root_page: u8, sql: &[u8]) -> Vec<u8> {
    let mut record: Vec<u8> = Vec::new();
    record.push(6); // header length: itself plus five one-byte codes
    record.push(23); // "table": text of five bytes
    record.push((13 + 2 * name.len()) as u8);
    record.push((13 + 2 * name.len()) as u8);
    record.push(1); // one-byte integer
    record.push((13 + 2 * sql.len()) as u8);
    record.extend_from_slice(b"table");
    record.extend_from_slice(name);
    record.extend_from_slice(name);
    record.push(root_page);
    record.extend_from_slice(sql);
    let mut cell: Vec<u8> = Vec::new();
    cell.push(record.len() as u8); // payload length, single-byte varint
    cell.push(row_id);
    cell.extend_from_slice(&record);
    cell
}

/// A table-leaf cell whose record is the single integer constant zero.
fn tiny_row_cell(row_id: u8) -> Vec<u8> {
    vec![0x02, row_id, 0x02, 0x08]
}

#[test]
fn parses_page_header_fields() {
    let cells = vec![tiny_row_cell(1), tiny_row_cell(2)];
    let page = page_with_cells(4096, 0, 0x0d, &cells, 0);
    let h = BTreeHeader::parse(&page, 0).unwrap();
    assert_eq!(h.kind, PageKind::LeafTable);
    assert_eq!(h.number_of_cells, 2);
    assert_eq!(h.cell_pointers, vec![4092, 4088]);
    assert_eq!(h.content_area_offset, 4088);
    assert_eq!(h.right_most_pointer, None);

    let interior = page_with_cells(4096, 0, 0x05, &[], 7);
    let ih = BTreeHeader::parse(&interior, 0).unwrap();
    assert_eq!(ih.kind, PageKind::InteriorTable);
    assert_eq!(ih.number_of_cells, 0);
    assert_eq!(ih.right_most_pointer, Some(7));

    let mut bad = page_with_cells(4096, 0, 0x0d, &[], 0);
    bad[0] = 0x42;
    assert_eq!(BTreeHeader::parse(&bad, 0).unwrap_err(), Error::InvalidPageType);
}

#[test]
fn parses_metadata() {
    // A 108-byte image: the file header and the start of page 1's B-tree
    // header, whose cell count is 3.
    let mut image = file_header(4096, 1);
    image.extend_from_slice(&[0x0d, 0x00, 0x00, 0x00, 0x03, 0x0f, 0xf0, 0x00]);
    let db = Db::open(image).unwrap();
    let metadata = db.metadata;
    assert_eq!(metadata.page_size, 4096);
    assert_eq!(metadata.number_of_tables, 3);
}

#[test]
fn minimal_database_has_no_tables() {
    let image = schema_page(4096, 1, &[]);
    let db = Db::open(image).unwrap();
    assert_eq!(db.metadata.page_size, 4096);
    assert_eq!(db.metadata.number_of_tables, 0);
    assert_eq!(db.tables().unwrap(), Vec::<Vec<u8>>::new());
}

#[test]
fn lists_user_tables_and_counts_raw_rows() {
    let cells = vec![
        schema_cell(1, b"alpha", 2, b"CREATE TABLE alpha(x)"),
        schema_cell(2, b"beta", 3, b"CREATE TABLE beta(x)"),
        schema_cell(3, b"gamma", 4, b"CREATE TABLE gamma(x)"),
        schema_cell(4, b"sqlite_sequence", 5, b"CREATE TABLE sqlite_sequence(name,seq)"),
    ];
    let image = schema_page(4096, 1, &cells);
    let db = Db::open(image).unwrap();
    // The raw schema row count includes the internal table...
    assert_eq!(db.metadata.number_of_tables, 4);
    // ...but the listed tables exclude every sqlite_-prefixed name.
    let tables = db.tables().unwrap();
    assert_eq!(tables.len(), 3);
    assert_eq!(tables, vec![b"alpha".to_vec(), b"beta".to_vec(), b"gamma".to_vec()]);
}

#[test]
fn zero_cell_leaf_yields_no_rows() {
    let mut image = schema_page(4096, 2, &[]);
    image.extend_from_slice(&page_with_cells(4096, 0, 0x0d, &[], 0));
    let db = Db::open(image).unwrap();
    let rows = db.rows_of(2).unwrap();
    assert_eq!(rows.len(), 0);
}

#[test]
fn interior_page_yields_rows_in_ascending_row_id_order() {
    // Page 2 is an interior table page: one cell pointing at page 3, and
    // the right-most pointer at page 4. Both children are leaves.
    let mut interior_cell: Vec<u8> = Vec::new();
    interior_cell.extend_from_slice(&3u32.to_be_bytes());
    interior_cell.push(0x02); // the key, a one-byte varint
    let mut image = schema_page(4096, 4, &[]);
    image.extend_from_slice(&page_with_cells(4096, 0, 0x05, &[interior_cell], 4));
    image.extend_from_slice(&page_with_cells(
        4096,
        0,
        0x0d,
        &[tiny_row_cell(1), tiny_row_cell(2)],
        0,
    ));
    image.extend_from_slice(&page_with_cells(
        4096,
        0,
        0x0d,
        &[tiny_row_cell(3), tiny_row_cell(4)],
        0,
    ));
    let db = Db::open(image).unwrap();
    let rows = db.rows_of(2).unwrap();
    let ids: Vec<i64> = rows.iter().map(|c| c.row_id).collect();
    assert_eq!(ids, vec![1, 2, 3, 4]);
    for pair in ids.windows(2) {
        assert!(pair[0] < pair[1]);
    }
}

#[test]
fn rejects_bad_magic() {
    let mut image = schema_page(4096, 1, &[]);
    image[0] = 0x00;
    assert_eq!(Db::open(image).unwrap_err(), Error::NotADatabaseFile);
}

#[test]
fn rejects_non_power_of_two_page_size() {
    let mut image = schema_page(4096, 1, &[]);
    image[16..18].copy_from_slice(&1000u16.to_be_bytes());
    assert_eq!(Db::open(image).unwrap_err(), Error::CorruptHeader);
}

#[test]
fn rejects_zero_page_size() {
    let mut image = schema_page(4096, 1, &[]);
    image[16..18].copy_from_slice(&0u16.to_be_bytes());
    assert_eq!(Db::open(image).unwrap_err(), Error::CorruptHeader);
}

#[test]
fn rejects_short_image() {
    assert_eq!(Db::open(vec![0u8; 50]).unwrap_err(), Error::IoError);
}

#[test]
fn page_size_field_one_means_largest_page() {
    let mut image = file_header(1, 1);
    image.extend_from_slice(&[0x0d, 0x00, 0x00, 0x00, 0x00, 0x00, 0x00, 0x00]);
    let db = Db::open(image).unwrap();
    assert_eq!(db.metadata.page_size, 1);
    assert_eq!(db.page_size, 65536);
}

#[test]
fn reconciles_zero_page_count_from_file_length() {
    let mut image = schema_page(4096, 0, &[]);
    image.extend_from_slice(&page_with_cells(4096, 0, 0x0d, &[], 0));
    let db = Db::open(image).unwrap();
    assert_eq!(db.page_count, 2);
    assert_eq!(db.rows_of(2).unwrap().len(), 0);
}

#[test]
fn reads_whole_pages() {
    let mut image = schema_page(4096, 2, &[]);
    image.extend_from_slice(&page_with_cells(4096, 0, 0x0d, &[], 0));
    let db = Db::open(image.clone()).unwrap();
    let page1 = db.read_page(1).unwrap();
    assert_eq!(page1, image[0..4096].to_vec());
    let page2 = db.read_page(2).unwrap();
    assert_eq!(page2, image[4096..8192].to_vec());
    assert_eq!(db.read_page(0).unwrap_err(), Error::InvalidPageNumber);
    assert_eq!(db.read_page(3).unwrap_err(), Error::InvalidPageNumber);
}

#[test]
fn rejects_invalid_page_numbers() {
    let image = schema_page(4096, 1, &[]);
    let db = Db::open(image).unwrap();
    assert_eq!(db.rows_of(0).unwrap_err(), Error::InvalidPageNumber);
    assert_eq!(db.rows_of(5).unwrap_err(), Error::InvalidPageNumber);
}

#[test]
fn rejects_page_past_end_of_image() {
    // The header claims two pages but the image holds only one.
    let image = schema_page(4096, 2, &[]);
    let db = Db::open(image).unwrap();
    assert_eq!(db.rows_of(2).unwrap_err(), Error::IoError);
}

#[test]
fn rejects_invalid_page_type() {
    let mut image = schema_page(4096, 2, &[]);
    let mut page2 = vec![0u8; 4096];
    page2[0] = 0x07;
    image.extend_from_slice(&page2);
    let db = Db::open(image).unwrap();
    assert_eq!(db.rows_of(2).unwrap_err(), Error::InvalidPageType);
}

#[test]
fn rejects_index_page_in_table_walk() {
    let mut image = schema_page(4096, 2, &[]);
    image.extend_from_slice(&page_with_cells(4096, 0, 0x0a, &[], 0));
    let db = Db::open(image).unwrap();
    assert_eq!(db.rows_of(2).unwrap_err(), Error::UnexpectedPageKind);
}

#[test]
fn rejects_cyclic_tree() {
    // An interior page whose right-most pointer is itself: the walk must
    // run out of depth, not hang.
    let mut image = schema_page(4096, 2, &[]);
    image.extend_from_slice(&page_with_cells(4096, 0, 0x05, &[], 2));
    let db = Db::open(image).unwrap();
    assert_eq!(db.rows_of(2).unwrap_err(), Error::MalformedTree);
}

#[test]
fn rejects_malformed_schema_row() {
    // A schema row whose record is a single integer: too few columns.
    let image = schema_page(4096, 1, &[tiny_row_cell(1)]);
    let db = Db::open(image).unwrap();
    assert_eq!(db.tables().unwrap_err(), Error::SchemaDecodeError);
}

#[test]
fn schema_entries_expose_all_columns() {
    let cells = vec![schema_cell(1, b"alpha", 7, b"CREATE TABLE alpha(x)")];
    let image = schema_page(4096, 1, &cells);
    let db = Db::open(image).unwrap();
    let entries = db.schema_entries().unwrap();
    assert_eq!(entries.len(), 1);
    assert_eq!(entries[0].object_type, b"table".to_vec());
    assert_eq!(entries[0].name, b"alpha".to_vec());
    assert_eq!(entries[0].table_name, b"alpha".to_vec());
    assert_eq!(entries[0].root_page, 7);
    assert_eq!(entries[0].sql, b"CREATE TABLE alpha(x)".to_vec());
}
