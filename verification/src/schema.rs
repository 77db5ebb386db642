use vstd::prelude::*;

use crate::btree::{page_rows_model, DbView, MAX_TREE_DEPTH};
use crate::bytes::copy_range;
use crate::error::Error;
use crate::record::{record_view, CellModel, Record, TableLeafCell, Value, ValueModel};

verus! {

/// One row of the schema table, mapped positionally from its record:
/// object type, object name, table name, root page, and creation SQL.
#[derive(Debug, PartialEq, Eq)]
pub struct SchemaEntry {
    pub object_type: Vec<u8>,
    pub name: Vec<u8>,
    pub table_name: Vec<u8>,
    pub root_page: u32,
    pub sql: Vec<u8>,
}

/// The mathematical view of a schema row.
pub ghost struct SchemaEntryModel {
    pub object_type: Seq<u8>,
    pub name: Seq<u8>,
    pub table_name: Seq<u8>,
    pub root_page: u32,
    pub sql: Seq<u8>,
}

impl View for SchemaEntry {
    type V = SchemaEntryModel;

    open spec fn view(&self) -> SchemaEntryModel {
        SchemaEntryModel {
            object_type: self.object_type@,
            name: self.name@,
            table_name: self.table_name@,
            root_page: self.root_page,
            sql: self.sql@,
        }
    }
}

pub open spec fn entries_view(s: Seq<SchemaEntry>) -> Seq<SchemaEntryModel> {
    s.map_values(|e: SchemaEntry| e@)
}

pub open spec fn names_view(s: Seq<Vec<u8>>) -> Seq<Seq<u8>> {
    s.map_values(|v: Vec<u8>| v@)
}

/// Building a schema row from a record: the first five values must be
/// text, text, text, an integer that fits a page number, and text or null
/// for the SQL; anything else is a `SchemaDecodeError`.
pub open spec fn schema_entry_model(rec: Seq<ValueModel>) -> Result<SchemaEntryModel, Error> {
    if rec.len() < 5 {
        Err(Error::SchemaDecodeError)
    } else {
        match (rec[0], rec[1], rec[2], rec[3], rec[4]) {
            (
                ValueModel::Text(object_type),
                ValueModel::Text(name),
                ValueModel::Text(table_name),
                ValueModel::Integer(root),
                sql_value,
            ) => {
                if root < 0 || root > 0xffff_ffff {
                    Err(Error::SchemaDecodeError)
                } else {
                    match sql_value {
                        ValueModel::Text(sql) => Ok(
                            SchemaEntryModel {
                                object_type,
                                name,
                                table_name,
                                root_page: root as u32,
                                sql,
                            },
                        ),
                        ValueModel::Null => Ok(
                            SchemaEntryModel {
                                object_type,
                                name,
                                table_name,
                                root_page: root as u32,
                                sql: Seq::empty(),
                            },
                        ),
                        _ => Err(Error::SchemaDecodeError),
                    }
                }
            },
            _ => Err(Error::SchemaDecodeError),
        }
    }
}

/// Decoding every schema row in order.
pub open spec fn schema_entries_model(rows: Seq<CellModel>, i: int) -> Result<
    Seq<SchemaEntryModel>,
    Error,
>
    decreases rows.len() - i,
{
    if i >= rows.len() {
        Ok(Seq::empty())
    } else {
        match schema_entry_model(rows[i].record) {
            Err(e) => Err(e),
            Ok(entry) => match schema_entries_model(rows, i + 1) {
                Err(e) => Err(e),
                Ok(rest) => Ok(seq![entry] + rest),
            },
        }
    }
}

/// The bytes of the object type that marks a table: "table" in ASCII.
pub open spec fn is_table_type(s: Seq<u8>) -> bool {
    s.len() == 5 && s[0] == 0x74 && s[1] == 0x61 && s[2] == 0x62 && s[3] == 0x6c && s[4] == 0x65
}

/// Whether a name starts with the reserved internal prefix "sqlite_" in
/// ASCII.
pub open spec fn has_internal_prefix(s: Seq<u8>) -> bool {
    s.len() >= 7 && s[0] == 0x73 && s[1] == 0x71 && s[2] == 0x6c && s[3] == 0x69 && s[4] == 0x74
        && s[5] == 0x65 && s[6] == 0x5f
}

/// A user table: a schema row of type "table" whose name does not carry
/// the reserved internal prefix.
pub open spec fn is_user_table(e: SchemaEntryModel) -> bool {
    is_table_type(e.object_type) && !has_internal_prefix(e.name)
}

/// The names of the user tables, in schema-row order.
pub open spec fn table_names_model(entries: Seq<SchemaEntryModel>, i: int) -> Seq<Seq<u8>>
    decreases entries.len() - i,
{
    if i >= entries.len() {
        Seq::empty()
    } else {
        (if is_user_table(entries[i]) {
            seq![entries[i].name]
        } else {
            Seq::empty()
        }) + table_names_model(entries, i + 1)
    }
}

/// Listing the tables of a database image: walk the schema B-tree rooted
/// at page 1, decode every row into a schema entry, and keep the names of
/// the user tables.
pub open spec fn tables_model(v: DbView) -> Result<Seq<Seq<u8>>, Error> {
    match page_rows_model(v, 1, MAX_TREE_DEPTH as int) {
        Err(e) => Err(e),
        Ok(rows) => match schema_entries_model(rows, 0) {
            Err(e) => Err(e),
            Ok(entries) => Ok(table_names_model(entries, 0)),
        },
    }
}

/// Copies a byte vector.
fn clone_bytes(v: &Vec<u8>) -> (r: Vec<u8>)
    ensures
        r@ == v@,
{
    let r = copy_range(v.as_slice(), 0, v.len());
    proof {
        assert(v@.subrange(0, v@.len() as int) =~= v@);
    }
    r
}

/// Whether the value names the "table" object type.
fn bytes_is_table(b: &Vec<u8>) -> (r: bool)
    ensures
        r == is_table_type(b@),
{
    b.len() == 5 && b[0] == 0x74 && b[1] == 0x61 && b[2] == 0x62 && b[3] == 0x6c && b[4] == 0x65
}

/// Whether the name starts with the reserved internal prefix.
fn bytes_has_internal_prefix(b: &Vec<u8>) -> (r: bool)
    ensures
        r == has_internal_prefix(b@),
{
    b.len() >= 7 && b[0] == 0x73 && b[1] == 0x71 && b[2] == 0x6c && b[3] == 0x69 && b[4] == 0x74
        && b[5] == 0x65 && b[6] == 0x5f
}

impl SchemaEntry {
    /// Builds a schema entry from a decoded record by positional mapping.
    pub fn from_record(rec: &Record) -> (r: Result<SchemaEntry, Error>)
        ensures
            (r is Ok) == (schema_entry_model(record_view(rec@)) is Ok),
            r matches Ok(e) ==> schema_entry_model(record_view(rec@)) matches Ok(m) && e@ == m,
            r matches Err(e) ==> schema_entry_model(record_view(rec@)) matches Err(m) && e == m,
    {
        if rec.len() < 5 {
            return Err(Error::SchemaDecodeError);
        }
        let object_type = match &rec[0] {
            Value::Text(b) => clone_bytes(b),
            _ => {
                return Err(Error::SchemaDecodeError);
            },
        };
        let name = match &rec[1] {
            Value::Text(b) => clone_bytes(b),
            _ => {
                return Err(Error::SchemaDecodeError);
            },
        };
        let table_name = match &rec[2] {
            Value::Text(b) => clone_bytes(b),
            _ => {
                return Err(Error::SchemaDecodeError);
            },
        };
        let root_page = match &rec[3] {
            Value::Integer(i) => {
                if *i < 0 || *i > 0xffff_ffff {
                    return Err(Error::SchemaDecodeError);
                }
                *i as u32
            },
            _ => {
                return Err(Error::SchemaDecodeError);
            },
        };
        let sql = match &rec[4] {
            Value::Text(b) => clone_bytes(b),
            Value::Null => Vec::new(),
            _ => {
                return Err(Error::SchemaDecodeError);
            },
        };
        Ok(SchemaEntry { object_type, name, table_name, root_page, sql })
    }
}

/// Turns the entries decoded so far and the result for the remaining rows
/// into the result for all rows.
pub open spec fn prepend_entries(
    prefix: Seq<SchemaEntryModel>,
    r: Result<Seq<SchemaEntryModel>, Error>,
) -> Result<Seq<SchemaEntryModel>, Error> {
    match r {
        Ok(rest) => Ok(prefix + rest),
        Err(e) => Err(e),
    }
}

/// Decodes every schema row into an entry, in row order.
#[verifier::loop_isolation(false)]
pub fn schema_entries_from_rows(rows: &Vec<TableLeafCell>) -> (r: Result<Vec<SchemaEntry>, Error>)
    ensures
        (r is Ok) == (schema_entries_model(crate::btree::cells_view(rows@), 0) is Ok),
        r matches Ok(es) ==> schema_entries_model(crate::btree::cells_view(rows@), 0) matches Ok(m)
            && entries_view(es@) == m,
        r matches Err(e) ==> schema_entries_model(crate::btree::cells_view(rows@), 0) matches Err(
            m,
        ) && e == m,
{
    let ghost cells = crate::btree::cells_view(rows@);
    let mut entries: Vec<SchemaEntry> = Vec::new();
    let mut i: usize = 0;
    proof {
        match schema_entries_model(cells, 0) {
            Ok(rest) => {
                assert(entries_view(entries@) + rest =~= rest);
            },
            Err(_) => {},
        }
    }
    while i < rows.len()
        invariant
            i <= rows.len(),
            schema_entries_model(cells, 0) == prepend_entries(
                entries_view(entries@),
                schema_entries_model(cells, i as int),
            ),
        decreases rows.len() - i,
    {
        let entry = match SchemaEntry::from_record(&rows[i].record) {
            Ok(e) => e,
            Err(e) => {
                return Err(e);
            },
        };
        let ghost pre = entries_view(entries@);
        entries.push(entry);
        proof {
            assert(entries_view(entries@) =~= pre.push(entry@));
            match schema_entries_model(cells, i + 1) {
                Ok(rest) => {
                    assert(pre + (seq![entry@] + rest) =~= pre.push(entry@) + rest);
                },
                Err(_) => {},
            }
        }
        i = i + 1;
    }
    proof {
        assert(entries_view(entries@) + Seq::<SchemaEntryModel>::empty() =~= entries_view(
            entries@,
        ));
    }
    Ok(entries)
}

/// Keeps the names of the user tables, in entry order.
#[verifier::loop_isolation(false)]
pub fn table_names(entries: &Vec<SchemaEntry>) -> (r: Vec<Vec<u8>>)
    ensures
        names_view(r@) == table_names_model(entries_view(entries@), 0),
{
    let ghost es = entries_view(entries@);
    let mut names: Vec<Vec<u8>> = Vec::new();
    let mut i: usize = 0;
    proof {
        assert(names_view(names@) + table_names_model(es, 0) =~= table_names_model(es, 0));
    }
    while i < entries.len()
        invariant
            i <= entries.len(),
            table_names_model(es, 0) =~= names_view(names@) + table_names_model(es, i as int),
        decreases entries.len() - i,
    {
        let keep = bytes_is_table(&entries[i].object_type) && !bytes_has_internal_prefix(
            &entries[i].name,
        );
        let ghost pre = names_view(names@);
        if keep {
            let name = clone_bytes(&entries[i].name);
            names.push(name);
            proof {
                assert(names_view(names@) =~= pre.push(es[i as int].name));
                assert(pre + (seq![es[i as int].name] + table_names_model(es, i + 1)) =~= pre.push(
                    es[i as int].name,
                ) + table_names_model(es, i + 1));
            }
        } else {
            proof {
                assert(pre + (Seq::<Seq<u8>>::empty() + table_names_model(es, i + 1)) =~= pre
                    + table_names_model(es, i + 1));
            }
        }
        i = i + 1;
    }
    proof {
        assert(names_view(names@) + Seq::<Seq<u8>>::empty() =~= names_view(names@));
    }
    names
}

} // verus!
