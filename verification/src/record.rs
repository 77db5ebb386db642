use vstd::prelude::*;

use crate::bytes::{be_int, be_uint, copy_range, lemma_be_uint_bounds, lemma_pow256_values, read_be_int};
use crate::error::Error;
use crate::varint::{i64_of_bits, varint_complete, varint_len, varint_value, VarInt};

verus! {

/// One decoded column value. Integers are sign-extended to 64 bits
/// regardless of their stored width; a float is kept as the raw bits of its
/// big-endian 64-bit representation; text and blobs own their bytes.
#[derive(Debug, PartialEq, Eq)]
pub enum Value {
    Null,
    Integer(i64),
    Float(u64),
    Text(Vec<u8>),
    Blob(Vec<u8>),
}

/// The mathematical view of a decoded column value.
pub ghost enum ValueModel {
    Null,
    Integer(int),
    Float(u64),
    Text(Seq<u8>),
    Blob(Seq<u8>),
}

impl View for Value {
    type V = ValueModel;

    open spec fn view(&self) -> ValueModel {
        match self {
            Value::Null => ValueModel::Null,
            Value::Integer(i) => ValueModel::Integer(*i as int),
            Value::Float(b) => ValueModel::Float(*b),
            Value::Text(v) => ValueModel::Text(v@),
            Value::Blob(v) => ValueModel::Blob(v@),
        }
    }
}

/// An ordered sequence of typed values, decoded from a serial-type header
/// and a body.
pub type Record = Vec<Value>;

/// One table-leaf cell: a row identifier and its decoded record.
#[derive(Debug, PartialEq, Eq)]
pub struct TableLeafCell {
    pub row_id: i64,
    pub record: Record,
}

/// The mathematical view of a table-leaf cell.
pub ghost struct CellModel {
    pub row_id: i64,
    pub record: Seq<ValueModel>,
}

pub open spec fn record_view(s: Seq<Value>) -> Seq<ValueModel> {
    s.map_values(|v: Value| v@)
}

impl View for TableLeafCell {
    type V = CellModel;

    open spec fn view(&self) -> CellModel {
        CellModel { row_id: self.row_id, record: record_view(self.record@) }
    }
}

/// Whether a serial-type code is one this decoder accepts: everything but
/// the two reserved codes, and nothing negative.
pub open spec fn serial_type_supported(code: int) -> bool {
    code >= 0 && code != 10 && code != 11
}

/// The number of body bytes a serial-type code consumes.
pub open spec fn serial_type_len(code: int) -> int {
    if code == 0 || code == 8 || code == 9 {
        0
    } else if code == 1 {
        1
    } else if code == 2 {
        2
    } else if code == 3 {
        3
    } else if code == 4 {
        4
    } else if code == 5 {
        6
    } else if code == 6 || code == 7 {
        8
    } else if code >= 12 {
        (code - 12) / 2
    } else {
        0
    }
}

/// The value a serial-type code denotes, given exactly its body bytes:
/// 0 is null; 1 through 6 are big-endian two's-complement integers of
/// widths 1, 2, 3, 4, 6 and 8; 7 is a float kept as its raw bits; 8 and 9
/// are the integer constants 0 and 1 with no body; odd codes from 13 are
/// text and even codes from 12 are blobs of (code − 13)/2 respectively
/// (code − 12)/2 bytes.
pub open spec fn value_model(code: int, body: Seq<u8>) -> ValueModel {
    if code == 0 {
        ValueModel::Null
    } else if 1 <= code <= 6 {
        ValueModel::Integer(be_int(body))
    } else if code == 7 {
        ValueModel::Float(be_uint(body) as u64)
    } else if code == 8 {
        ValueModel::Integer(0)
    } else if code == 9 {
        ValueModel::Integer(1)
    } else if code >= 13 && code % 2 == 1 {
        ValueModel::Text(body)
    } else {
        ValueModel::Blob(body)
    }
}

/// The constant serial types carry their value in the code itself: 8 and 9
/// decode to the integers 0 and 1 and consume no body bytes at all.
pub proof fn lemma_constant_serial_types(body: Seq<u8>)
    ensures
        value_model(8, body) == ValueModel::Integer(0),
        value_model(9, body) == ValueModel::Integer(1),
        serial_type_len(8) == 0,
        serial_type_len(9) == 0,
{
}

/// Decoding the values of a record: serial-type codes are read as varints
/// from `payload[hpos..hend]` (the record header) while each code's body
/// bytes are consumed in the same order starting at `bpos`.
pub open spec fn values_model(payload: Seq<u8>, hpos: int, hend: int, bpos: int) -> Result<
    Seq<ValueModel>,
    Error,
>
    decreases hend - hpos,
{
    if hpos == hend {
        Ok(Seq::empty())
    } else if hpos > hend {
        Err(Error::TruncatedInput)
    } else if !varint_complete(payload.skip(hpos)) {
        Err(Error::TruncatedInput)
    } else {
        let l = varint_len(payload.skip(hpos));
        if l < 1 || hpos + l > hend {
            Err(Error::TruncatedInput)
        } else {
            let code = i64_of_bits(varint_value(payload.skip(hpos)));
            if !serial_type_supported(code) {
                Err(Error::UnsupportedSerialType)
            } else {
                let size = serial_type_len(code);
                if bpos + size > payload.len() {
                    Err(Error::TruncatedInput)
                } else {
                    match values_model(payload, hpos + l, hend, bpos + size) {
                        Err(e) => Err(e),
                        Ok(rest) => Ok(
                            seq![value_model(code, payload.subrange(bpos, bpos + size))] + rest,
                        ),
                    }
                }
            }
        }
    }
}

/// Decoding a whole record from its payload: a varint gives the header's
/// total length including itself, the serial-type codes fill the rest of
/// the header, and the bodies follow the header.
pub open spec fn record_model(payload: Seq<u8>) -> Result<Seq<ValueModel>, Error> {
    if !varint_complete(payload) {
        Err(Error::TruncatedInput)
    } else {
        let hl = varint_len(payload);
        let header_len = i64_of_bits(varint_value(payload));
        if header_len < hl || header_len > payload.len() {
            Err(Error::TruncatedInput)
        } else {
            values_model(payload, hl, header_len, header_len)
        }
    }
}

/// Decoding one table-leaf cell at in-page offset `off`: a varint payload
/// length, a varint row id, and the record payload, which must fit in the
/// page-local capacity of `page_size - 35` bytes (overflow pages are out of
/// scope).
pub open spec fn leaf_cell_model(page: Seq<u8>, off: int, page_size: int) -> Result<
    CellModel,
    Error,
> {
    if !varint_complete(page.skip(off)) || off < 0 || off > page.len() {
        Err(Error::TruncatedInput)
    } else {
        let l1 = varint_len(page.skip(off));
        let payload_len = i64_of_bits(varint_value(page.skip(off)));
        if payload_len < 0 {
            Err(Error::TruncatedInput)
        } else if payload_len > page_size - 35 {
            Err(Error::PayloadOverflowUnsupported)
        } else if !varint_complete(page.skip(off + l1)) {
            Err(Error::TruncatedInput)
        } else {
            let l2 = varint_len(page.skip(off + l1));
            let row_id = i64_of_bits(varint_value(page.skip(off + l1)));
            let start = off + l1 + l2;
            if start + payload_len > page.len() {
                Err(Error::TruncatedInput)
            } else {
                match record_model(page.subrange(start, start + payload_len)) {
                    Err(e) => Err(e),
                    Ok(values) => Ok(CellModel { row_id: row_id as i64, record: values }),
                }
            }
        }
    }
}

/// A payload exactly at the local capacity is not an overflow; the first
/// byte beyond it is, and `PayloadOverflowUnsupported` is reported for that
/// case and no other.
pub proof fn lemma_payload_threshold(page: Seq<u8>, off: int, page_size: int)
    requires
        0 <= off <= page.len(),
        varint_complete(page.skip(off)),
    ensures
        (leaf_cell_model(page, off, page_size) == Result::<CellModel, Error>::Err(
            Error::PayloadOverflowUnsupported,
        )) == (0 <= i64_of_bits(varint_value(page.skip(off))) && i64_of_bits(
            varint_value(page.skip(off)),
        ) > page_size - 35),
{
    let payload_len = i64_of_bits(varint_value(page.skip(off)));
    if 0 <= payload_len && payload_len <= page_size - 35 {
        let l1 = varint_len(page.skip(off));
        if varint_complete(page.skip(off + l1)) {
            let l2 = varint_len(page.skip(off + l1));
            let start = off + l1 + l2;
            if start + payload_len <= page.len() {
                match record_model(page.subrange(start, start + payload_len)) {
                    Err(e) => {
                        assert(e != Error::PayloadOverflowUnsupported) by {
                            lemma_record_model_errors(page.subrange(start, start + payload_len));
                        }
                    },
                    Ok(_) => {},
                }
            }
        }
    }
}

/// Record decoding never reports a payload overflow: that error belongs to
/// the cell level alone.
proof fn lemma_values_model_errors(payload: Seq<u8>, hpos: int, hend: int, bpos: int)
    ensures
        values_model(payload, hpos, hend, bpos) matches Err(e) ==> e
            != Error::PayloadOverflowUnsupported,
    decreases hend - hpos,
{
    if hpos < hend && varint_complete(payload.skip(hpos)) {
        let l = varint_len(payload.skip(hpos));
        if 1 <= l && hpos + l <= hend {
            let code = i64_of_bits(varint_value(payload.skip(hpos)));
            if serial_type_supported(code) {
                let size = serial_type_len(code);
                if bpos + size <= payload.len() {
                    lemma_values_model_errors(payload, hpos + l, hend, bpos + size);
                }
            }
        }
    }
}

proof fn lemma_record_model_errors(payload: Seq<u8>)
    ensures
        record_model(payload) matches Err(e) ==> e != Error::PayloadOverflowUnsupported,
{
    if varint_complete(payload) {
        let hl = varint_len(payload);
        let header_len = i64_of_bits(varint_value(payload));
        if hl <= header_len <= payload.len() {
            lemma_values_model_errors(payload, hl, header_len, header_len);
        }
    }
}

/// Decodes the value a serial-type code denotes from its body bytes at
/// `payload[start..start + size]`.
fn decode_value(payload: &[u8], code: i64, start: usize, size: usize) -> (r: Value)
    requires
        serial_type_supported(code as int),
        size == serial_type_len(code as int),
        start + size <= payload@.len(),
    ensures
        r@ == value_model(code as int, payload@.subrange(start as int, start as int + size)),
{
    let ghost body = payload@.subrange(start as int, start as int + size);
    // Binds the slice length as a machine integer, so the index arithmetic
    // below is known not to overflow.
    let _n: usize = payload.len();
    if code == 0 {
        Value::Null
    } else if code == 1 || code == 2 || code == 3 || code == 4 || code == 5 || code == 6 {
        let width: usize = if code == 1 {
            1
        } else if code == 2 {
            2
        } else if code == 3 {
            3
        } else if code == 4 {
            4
        } else if code == 5 {
            6
        } else {
            8
        };
        let v = read_be_int(payload, start, width);
        Value::Integer(v)
    } else if code == 7 {
        let mut bits: u64 = 0;
        let mut k: usize = 0;
        proof {
            lemma_pow256_values();
        }
        #[verifier::loop_isolation(false)]
        while k < 8
            invariant
                k <= 8,
                bits == be_uint(body.take(k as int)),
                bits < crate::bytes::pow256(k as nat),
            decreases 8 - k,
        {
            let b = payload[start + k];
            proof {
                lemma_be_uint_bounds(body.take(k as int));
                assert(body.take(k as int + 1).drop_last() =~= body.take(k as int));
                assert(body.take(k as int + 1).last() == body[k as int]);
                assert(body[k as int] == payload@[start + k]);
                assert(bits * 256 + b < 256 * crate::bytes::pow256(k as nat)) by (nonlinear_arith)
                    requires
                        bits < crate::bytes::pow256(k as nat),
                        0 <= b < 256,
                        0 <= bits,
                ;
            }
            bits = bits * 256 + (b as u64);
            k = k + 1;
        }
        proof {
            assert(body.take(8) =~= body);
        }
        Value::Float(bits)
    } else if code == 8 {
        Value::Integer(0)
    } else if code == 9 {
        Value::Integer(1)
    } else {
        let data = copy_range(payload, start, start + size);
        if code % 2 == 1 {
            Value::Text(data)
        } else {
            Value::Blob(data)
        }
    }
}

/// Turns the result of decoding one more value into the result for the
/// whole sequence it belongs to.
pub open spec fn prepend_values(prefix: Seq<ValueModel>, r: Result<Seq<ValueModel>, Error>) -> Result<
    Seq<ValueModel>,
    Error,
> {
    match r {
        Ok(rest) => Ok(prefix + rest),
        Err(e) => Err(e),
    }
}

/// Decodes a whole record from its payload bytes.
#[verifier::loop_isolation(false)]
pub fn decode_record(payload: &[u8]) -> (r: Result<Record, Error>)
    ensures
        (r is Ok) == (record_model(payload@) is Ok),
        r matches Ok(v) ==> record_model(payload@) matches Ok(m) && record_view(v@) == m,
        r matches Err(e) ==> record_model(payload@) matches Err(m) && e == m,
{
    let n = payload.len();
    let header = match VarInt::read(payload, 0) {
        Ok(v) => v,
        Err(e) => {
            proof {
                assert(payload@.skip(0) =~= payload@);
            }
            return Err(e);
        },
    };
    proof {
        assert(payload@.skip(0) =~= payload@);
    }
    if header.value < header.byte_length as i64 || (header.value as u64) > (n as u64) {
        return Err(Error::TruncatedInput);
    }
    let hend: usize = header.value as usize;
    let mut values: Vec<Value> = Vec::new();
    let mut hpos: usize = header.byte_length;
    let mut bpos: usize = hend;
    proof {
        match values_model(payload@, hpos as int, hend as int, bpos as int) {
            Ok(rest) => {
                assert(record_view(values@) + rest =~= rest);
            },
            Err(_) => {},
        }
    }
    while hpos < hend
        invariant
            hpos <= hend <= n,
            bpos <= n,
            values_model(payload@, header.byte_length as int, hend as int, hend as int)
                == prepend_values(
                record_view(values@),
                values_model(payload@, hpos as int, hend as int, bpos as int),
            ),
        decreases hend - hpos,
    {
        let code_vi = match VarInt::read(payload, hpos) {
            Ok(v) => v,
            Err(e) => {
                return Err(e);
            },
        };
        if code_vi.byte_length > hend - hpos {
            return Err(Error::TruncatedInput);
        }
        let code = code_vi.value;
        if code < 0 || code == 10 || code == 11 {
            return Err(Error::UnsupportedSerialType);
        }
        let size64: i64 = if code >= 12 {
            (code - 12) / 2
        } else if code == 1 {
            1
        } else if code == 2 {
            2
        } else if code == 3 {
            3
        } else if code == 4 {
            4
        } else if code == 5 {
            6
        } else if code == 6 || code == 7 {
            8
        } else {
            0
        };
        proof {
            assert(size64 as int == serial_type_len(code as int));
        }
        if (size64 as u64) > ((n - bpos) as u64) {
            return Err(Error::TruncatedInput);
        }
        let size: usize = size64 as usize;
        let value = decode_value(payload, code, bpos, size);
        let ghost pre = record_view(values@);
        proof {
            let s = payload@.skip(hpos as int);
            assert(values_model(payload@, hpos as int, hend as int, bpos as int) == (match
                values_model(
                payload@,
                hpos + code_vi.byte_length,
                hend as int,
                bpos + size,
            ) {
                Ok(rest) => Result::<Seq<ValueModel>, Error>::Ok(
                    seq![value_model(code as int, payload@.subrange(bpos as int, bpos + size))]
                        + rest,
                ),
                Err(e) => Result::<Seq<ValueModel>, Error>::Err(e),
            }));
        }
        values.push(value);
        proof {
            assert(record_view(values@) =~= pre.push(value@));
            match values_model(
                payload@,
                hpos + code_vi.byte_length,
                hend as int,
                bpos + size,
            ) {
                Ok(rest) => {
                    assert(pre + (seq![value@] + rest) =~= pre.push(value@) + rest);
                },
                Err(_) => {},
            }
        }
        hpos = hpos + code_vi.byte_length;
        bpos = bpos + size;
    }
    proof {
        assert(record_view(values@) + Seq::<ValueModel>::empty() =~= record_view(values@));
    }
    Ok(values)
}

/// Decodes one table-leaf cell at in-page offset `off`.
pub fn decode_table_leaf_cell(page: &[u8], off: usize, page_size: u32) -> (r: Result<
    TableLeafCell,
    Error,
>)
    ensures
        (r is Ok) == (leaf_cell_model(page@, off as int, page_size as int) is Ok),
        r matches Ok(c) ==> leaf_cell_model(page@, off as int, page_size as int) matches Ok(m)
            && c@ == m,
        r matches Err(e) ==> leaf_cell_model(page@, off as int, page_size as int) matches Err(m)
            && e == m,
{
    // Binds the slice length as a machine integer, so the offset arithmetic
    // below is known not to overflow.
    let _n: usize = page.len();
    let len_vi = match VarInt::read(page, off) {
        Ok(v) => v,
        Err(e) => {
            return Err(e);
        },
    };
    let payload_len = len_vi.value;
    if payload_len < 0 {
        return Err(Error::TruncatedInput);
    }
    if payload_len > (page_size as i64) - 35 {
        return Err(Error::PayloadOverflowUnsupported);
    }
    let id_vi = match VarInt::read(page, off + len_vi.byte_length) {
        Ok(v) => v,
        Err(e) => {
            return Err(e);
        },
    };
    let start = off + len_vi.byte_length + id_vi.byte_length;
    if (payload_len as u64) > ((page.len() - start) as u64) {
        return Err(Error::TruncatedInput);
    }
    let payload = copy_range(page, start, start + payload_len as usize);
    let record = match decode_record(payload.as_slice()) {
        Ok(v) => v,
        Err(e) => {
            return Err(e);
        },
    };
    Ok(TableLeafCell { row_id: id_vi.value, record })
}

} // verus!
