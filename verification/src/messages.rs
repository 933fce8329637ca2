use vstd::prelude::*;
use vstd::string::{StrSliceExecFns, StringSliceAdditionalSpecFns};
use vstd::utf8::valid_utf8;

use crate::errors::Error;
use crate::text::{is_valid_utf8, spec_decimal};

verus! {

/// Largest payload a single message may carry: the length field is a
/// signed 32-bit integer that also counts its own four bytes.
pub const MAX_PAYLOAD_LEN: usize = 0x7fff_fffb;

// ---------------------------------------------------------------------------
// Big-endian integer fields
// ---------------------------------------------------------------------------
/// The two bytes of `n` in network (big-endian) order.
pub open spec fn spec_be_u16(n: u16) -> Seq<u8> {
    seq![(n / 0x100) as u8, (n % 0x100) as u8]
}

/// The four bytes of `n` in network (big-endian) order.
pub open spec fn spec_be_u32(n: u32) -> Seq<u8> {
    seq![
        ((n / 0x1000000) % 0x100) as u8,
        ((n / 0x10000) % 0x100) as u8,
        ((n / 0x100) % 0x100) as u8,
        (n % 0x100) as u8,
    ]
}

/// The value read from four big-endian bytes.
pub open spec fn spec_be_u32_decode(s: Seq<u8>) -> u32
    recommends
        s.len() == 4,
{
    (s[0] * 0x1000000 + s[1] * 0x10000 + s[2] * 0x100 + s[3]) as u32
}

fn push_be_u16(buf: &mut Vec<u8>, n: u16)
    ensures
        final(buf)@ == old(buf)@ + spec_be_u16(n),
{
    buf.push((n / 0x100) as u8);
    buf.push((n % 0x100) as u8);
    proof {
        assert(final(buf)@ =~= old(buf)@ + spec_be_u16(n));
    }
}

fn push_be_u32(buf: &mut Vec<u8>, n: u32)
    ensures
        final(buf)@ == old(buf)@ + spec_be_u32(n),
{
    buf.push(((n / 0x1000000) % 0x100) as u8);
    buf.push(((n / 0x10000) % 0x100) as u8);
    buf.push(((n / 0x100) % 0x100) as u8);
    buf.push((n % 0x100) as u8);
    proof {
        assert(final(buf)@ =~= old(buf)@ + spec_be_u32(n));
    }
}

fn be_u32_at(buf: &Vec<u8>, off: usize) -> (r: u32)
    requires
        off + 4 <= buf@.len(),
    ensures
        r == spec_be_u32_decode(buf@.subrange(off as int, off as int + 4)),
{
    // Binding the length as a usize makes the in-bounds offsets visible.
    let n = buf.len();
    let r = (buf[off] as u32) * 0x1000000 + (buf[off + 1] as u32) * 0x10000 + (buf[off + 2] as u32)
        * 0x100 + (buf[off + 3] as u32);
    proof {
        assert(off + 4 <= n);
        let s = buf@.subrange(off as int, off as int + 4);
        assert(s[0] == buf@[off as int] && s[1] == buf@[off as int + 1] && s[2] == buf@[off as int
            + 2] && s[3] == buf@[off as int + 3]);
    }
    r
}

// ---------------------------------------------------------------------------
// Message framing
// ---------------------------------------------------------------------------
/// A complete backend message: a one-byte tag, a big-endian length that
/// counts itself plus the payload, and the payload.
pub open spec fn spec_frame(tag: u8, payload: Seq<u8>) -> Seq<u8>
    recommends
        payload.len() + 4 <= 0x7fffffff,
{
    seq![tag] + spec_be_u32((payload.len() + 4) as u32) + payload
}

fn frame_message(tag: u8, payload: Vec<u8>) -> (r: Vec<u8>)
    requires
        payload@.len() <= MAX_PAYLOAD_LEN,
    ensures
        r@ == spec_frame(tag, payload@),
{
    let mut r: Vec<u8> = Vec::new();
    r.push(tag);
    let len: u32 = (payload.len() + 4) as u32;
    push_be_u32(&mut r, len);
    let mut p = payload;
    let ghost pv = p@;
    r.append(&mut p);
    proof {
        assert(r@ =~= spec_frame(tag, pv));
    }
    r
}

/// A NUL-terminated string field.
pub open spec fn spec_cstr(s: Seq<u8>) -> Seq<u8> {
    s + seq![0u8]
}

// ---------------------------------------------------------------------------
// Column descriptors
// ---------------------------------------------------------------------------
/// The wire-level type of a result column.
#[derive(Clone, Copy, Debug, PartialEq, Eq, Structural)]
pub enum DataType {
    Text,
    Int4,
    Numeric,
}

/// The catalog object identifier reported for a column type.
pub open spec fn spec_type_oid(t: DataType) -> u32 {
    match t {
        DataType::Text => 25,
        DataType::Int4 => 23,
        DataType::Numeric => 1700,
    }
}

/// The declared byte width of a column type; variable-width types carry
/// the two's-complement pattern of -1.
pub open spec fn spec_type_size(t: DataType) -> u16 {
    match t {
        DataType::Text => 0xffff,
        DataType::Int4 => 4,
        DataType::Numeric => 0xffff,
    }
}

fn type_oid(t: DataType) -> (r: u32)
    ensures
        r == spec_type_oid(t),
{
    match t {
        DataType::Text => 25,
        DataType::Int4 => 23,
        DataType::Numeric => 1700,
    }
}

fn type_size(t: DataType) -> (r: u16)
    ensures
        r == spec_type_size(t),
{
    match t {
        DataType::Text => 0xffff,
        DataType::Int4 => 4,
        DataType::Numeric => 0xffff,
    }
}

/// One field descriptor inside a RowDescription message: the column name,
/// no originating table or attribute, the type identifier and size, the
/// default type modifier, and the text format code.
pub open spec fn spec_field_desc(name: Seq<u8>, t: DataType) -> Seq<u8> {
    spec_cstr(name) + spec_be_u32(0) + spec_be_u16(0) + spec_be_u32(spec_type_oid(t)) + spec_be_u16(
        spec_type_size(t),
    ) + spec_be_u32(0xffffffff) + spec_be_u16(0)
}

/// The concatenated field descriptors of all columns, in order.
pub open spec fn spec_field_descs(cols: Seq<(Seq<u8>, DataType)>) -> Seq<u8>
    decreases cols.len(),
{
    if cols.len() == 0 {
        Seq::empty()
    } else {
        spec_field_descs(cols.drop_last()) + spec_field_desc(cols.last().0, cols.last().1)
    }
}

/// The byte views of a borrowed column list.
pub open spec fn spec_columns(cols: Seq<(&str, DataType)>) -> Seq<(Seq<u8>, DataType)> {
    Seq::new(cols.len(), |i: int| (cols[i].0.spec_bytes(), cols[i].1))
}

/// The RowDescription message for an ordered column list.
pub open spec fn spec_row_description(cols: Seq<(Seq<u8>, DataType)>) -> Seq<u8> {
    spec_frame(84u8, spec_be_u16(cols.len() as u16) + spec_field_descs(cols))
}

/// Encodes the RowDescription ('T') message describing the given columns.
/// Column names are short identifiers.
pub fn row_description(cols: &Vec<(&str, DataType)>) -> (r: Vec<u8>)
    requires
        cols@.len() <= 0xffff,
        forall|i: int| 0 <= i < cols@.len() ==> (#[trigger] cols@[i].0)@.len() <= 64,
    ensures
        r@ == spec_row_description(spec_columns(cols@)),
{
    let ghost cv = spec_columns(cols@);
    let mut payload: Vec<u8> = Vec::new();
    push_be_u16(&mut payload, cols.len() as u16);
    let ghost header = payload@;
    let n = cols.len();
    let mut i: usize = 0;
    while i < n
        invariant
            i <= n,
            n == cols@.len() <= 0xffff,
            cv == spec_columns(cols@),
            forall|k: int| 0 <= k < cols@.len() ==> (#[trigger] cols@[k].0)@.len() <= 64,
            payload@ == header + spec_field_descs(cv.subrange(0, i as int)),
            header.len() == 2,
            payload@.len() <= 2 + i * 276,
        decreases n - i,
    {
        let ghost before = payload@;
        let name: &str = cols[i].0;
        let t = cols[i].1;
        proof {
            crate::text::lemma_encode_utf8_len(name@);
        }
        let mut nb = name.as_bytes_vec();
        payload.append(&mut nb);
        payload.push(0u8);
        push_be_u32(&mut payload, 0);
        push_be_u16(&mut payload, 0);
        push_be_u32(&mut payload, type_oid(t));
        push_be_u16(&mut payload, type_size(t));
        push_be_u32(&mut payload, 0xffffffff);
        push_be_u16(&mut payload, 0);
        proof {
            assert(payload@ =~= before + spec_field_desc(name.spec_bytes(), t));
            assert(cv.subrange(0, i + 1).drop_last() =~= cv.subrange(0, i as int));
            assert(cv.subrange(0, i + 1).last() == (name.spec_bytes(), t));
            assert(payload@ =~= header + spec_field_descs(cv.subrange(0, i + 1)));
        }
        i = i + 1;
    }
    proof {
        assert(cv.subrange(0, n as int) =~= cv);
    }
    frame_message(84u8, payload)
}

// ---------------------------------------------------------------------------
// Data rows
// ---------------------------------------------------------------------------
/// One length-prefixed cell of a DataRow message.
pub open spec fn spec_cell(v: Seq<u8>) -> Seq<u8> {
    spec_be_u32(v.len() as u32) + v
}

/// The concatenated cells of a row, in column order.
pub open spec fn spec_cells(vs: Seq<Seq<u8>>) -> Seq<u8>
    decreases vs.len(),
{
    if vs.len() == 0 {
        Seq::empty()
    } else {
        spec_cells(vs.drop_last()) + spec_cell(vs.last())
    }
}

/// The byte views of a vector of owned cells.
pub open spec fn spec_cell_views(vs: Seq<Vec<u8>>) -> Seq<Seq<u8>> {
    Seq::new(vs.len(), |i: int| vs[i]@)
}

/// The DataRow message holding the given text cells.
pub open spec fn spec_data_row(vs: Seq<Seq<u8>>) -> Seq<u8> {
    spec_frame(68u8, spec_be_u16(vs.len() as u16) + spec_cells(vs))
}

/// Encodes the DataRow ('D') message carrying one text value per column.
pub fn data_row(values: &Vec<Vec<u8>>) -> (r: Vec<u8>)
    requires
        values@.len() <= 0xff,
        forall|i: int| 0 <= i < values@.len() ==> (#[trigger] values@[i])@.len() <= 0x80000,
    ensures
        r@ == spec_data_row(spec_cell_views(values@)),
{
    let ghost cv = spec_cell_views(values@);
    let mut payload: Vec<u8> = Vec::new();
    push_be_u16(&mut payload, values.len() as u16);
    let ghost header = payload@;
    let n = values.len();
    let mut i: usize = 0;
    while i < n
        invariant
            i <= n,
            n == values@.len() <= 0xff,
            cv == spec_cell_views(values@),
            forall|k: int| 0 <= k < values@.len() ==> (#[trigger] values@[k])@.len() <= 0x80000,
            payload@ == header + spec_cells(cv.subrange(0, i as int)),
            header.len() == 2,
            payload@.len() <= 2 + i * 0x80004,
        decreases n - i,
    {
        let ghost before = payload@;
        let cell: &Vec<u8> = &values[i];
        push_be_u32(&mut payload, cell.len() as u32);
        crate::text::push_bytes(&mut payload, cell);
        proof {
            assert(payload@ =~= before + spec_cell(cell@));
            assert(cv.subrange(0, i + 1).drop_last() =~= cv.subrange(0, i as int));
            assert(payload@ =~= header + spec_cells(cv.subrange(0, i + 1)));
        }
        i = i + 1;
    }
    proof {
        assert(cv.subrange(0, n as int) =~= cv);
    }
    frame_message(68u8, payload)
}

// ---------------------------------------------------------------------------
// Completion, status and error messages
// ---------------------------------------------------------------------------
/// The CommandComplete message with the given tag.
pub open spec fn spec_command_complete(tag: Seq<u8>) -> Seq<u8> {
    spec_frame(67u8, spec_cstr(tag))
}

/// Encodes the CommandComplete ('C') message; the tag names the command
/// that finished (for example "SHOW").
pub fn command_complete(tag: &str) -> (r: Vec<u8>)
    requires
        tag@.len() <= 64,
    ensures
        r@ == spec_command_complete(tag.spec_bytes()),
{
    proof {
        crate::text::lemma_encode_utf8_len(tag@);
    }
    let mut payload = tag.as_bytes_vec();
    payload.push(0u8);
    proof {
        assert(payload@ =~= spec_cstr(tag.spec_bytes()));
    }
    frame_message(67u8, payload)
}

/// The per-exchange connection status reported in ReadyForQuery.
#[derive(Clone, Copy, Debug, PartialEq, Eq, Structural)]
pub enum TransactionStatus {
    Idle,
    InTransaction,
    Failed,
}

/// The status byte of a ReadyForQuery message.
pub open spec fn spec_status_byte(s: TransactionStatus) -> u8 {
    match s {
        TransactionStatus::Idle => 73u8,  // 'I'
        TransactionStatus::InTransaction => 84u8,  // 'T'
        TransactionStatus::Failed => 69u8,  // 'E'
    }
}

/// The ReadyForQuery message with the given status.
pub open spec fn spec_ready_for_query(s: TransactionStatus) -> Seq<u8> {
    seq![90u8] + spec_be_u32(5) + seq![spec_status_byte(s)]
}

/// Encodes the ReadyForQuery ('Z') message that closes every exchange.
pub fn ready_for_query(status: TransactionStatus) -> (r: Vec<u8>)
    ensures
        r@ == spec_ready_for_query(status),
{
    let mut r: Vec<u8> = Vec::new();
    r.push(90u8);
    push_be_u32(&mut r, 5);
    let b: u8 = match status {
        TransactionStatus::Idle => 73,
        TransactionStatus::InTransaction => 84,
        TransactionStatus::Failed => 69,
    };
    r.push(b);
    proof {
        assert(r@ =~= spec_ready_for_query(status));
    }
    r
}

/// The field list of an ErrorResponse: severity, a generic system error
/// code, the human-readable message, and the field-list terminator.
pub open spec fn spec_error_fields(msg: Seq<u8>) -> Seq<u8> {
    seq![83u8] + spec_cstr("ERROR".spec_bytes()) + seq![67u8] + spec_cstr("58000".spec_bytes())
        + seq![77u8] + spec_cstr(msg) + seq![0u8]
}

/// The ErrorResponse message carrying the given message text.
pub open spec fn spec_error_response(msg: Seq<u8>) -> Seq<u8> {
    spec_frame(69u8, spec_error_fields(msg))
}

/// Encodes the ErrorResponse ('E') message with a human-readable message.
pub fn error_response(message: &str) -> (r: Vec<u8>)
    requires
        message@.len() <= 0x4000,
    ensures
        r@ == spec_error_response(message.spec_bytes()),
{
    proof {
        crate::text::lemma_encode_utf8_len(message@);
        crate::text::lemma_encode_utf8_len("ERROR"@);
        crate::text::lemma_encode_utf8_len("58000"@);
        proof_literal_lens();
    }
    let mut payload: Vec<u8> = Vec::new();
    payload.push(83u8);  // 'S'
    let mut sev = "ERROR".as_bytes_vec();
    payload.append(&mut sev);
    payload.push(0u8);
    payload.push(67u8);  // 'C'
    let mut code = "58000".as_bytes_vec();
    payload.append(&mut code);
    payload.push(0u8);
    payload.push(77u8);  // 'M'
    let mut mb = message.as_bytes_vec();
    payload.append(&mut mb);
    payload.push(0u8);
    payload.push(0u8);
    proof {
        assert(payload@ =~= spec_error_fields(message.spec_bytes()));
    }
    frame_message(69u8, payload)
}

proof fn proof_literal_lens()
    ensures
        "ERROR"@.len() == 5,
        "58000"@.len() == 5,
{
    reveal_strlit("ERROR");
    reveal_strlit("58000");
}

// ---------------------------------------------------------------------------
// Simple-query decode
// ---------------------------------------------------------------------------
/// Total decode of a Simple Query ('Q') frame. Defined for every byte
/// sequence: the result is the framed query text, or the error that the
/// frame earns. The length field counts itself and the trailing NUL
/// terminator, so the query text occupies `length - 5` bytes.
pub open spec fn spec_parse_query(b: Seq<u8>) -> Result<Seq<u8>, Error> {
    if b.len() == 0 {
        Err(Error::QueryDecodeError)
    } else if b[0] != 81u8 {
        Err(Error::ProtocolSyncError)
    } else if b.len() < 5 {
        Err(Error::QueryDecodeError)
    } else {
        let len = spec_be_u32_decode(b.subrange(1, 5)) as int;
        if len < 5 {
            Err(Error::QueryDecodeError)
        } else if b.len() < 1 + len {
            Err(Error::QueryDecodeError)
        } else if !valid_utf8(b.subrange(5, len)) {
            Err(Error::QueryDecodeError)
        } else {
            Ok(b.subrange(5, len))
        }
    }
}

/// Decodes a Simple Query frame into its query text.
///
/// This function is total: for any input bytes it returns either the
/// query text (guaranteed valid UTF-8) or a clean failure, with in-bounds
/// reads only. A leading byte other than 'Q' is a protocol
/// synchronisation failure; a length below the frame overhead, a buffer
/// shorter than the declared length, or a payload that is not valid text
/// is a decode failure.
/// A big-endian encoding decodes to the value it was made from.
pub proof fn lemma_be_u32_round_trip(n: u32)
    ensures
        spec_be_u32_decode(spec_be_u32(n)) == n,
{
    let a = (n / 0x1000000) % 0x100;
    let b = (n / 0x10000) % 0x100;
    let c = (n / 0x100) % 0x100;
    let d = n % 0x100;
    assert(n / 0x1000000 < 0x100);
    assert(a == n / 0x1000000);
    assert(n == (n / 0x100) * 0x100 + n % 0x100) by (nonlinear_arith);
    assert(n / 0x100 == (n / 0x10000) * 0x100 + (n / 0x100) % 0x100) by (nonlinear_arith);
    assert(n / 0x10000 == (n / 0x1000000) * 0x100 + (n / 0x10000) % 0x100) by (nonlinear_arith);
    assert(a * 0x1000000 + b * 0x10000 + c * 0x100 + d == n) by (nonlinear_arith)
        requires
            a == n / 0x1000000,
            n / 0x10000 == a * 0x100 + b,
            n / 0x100 == (n / 0x10000) * 0x100 + c,
            n == (n / 0x100) * 0x100 + d,
    ;
    assert(spec_be_u32(n) =~= seq![a as u8, b as u8, c as u8, d as u8]);
}

/// The Simple Query ('Q') message a client sends: the tag, a length
/// covering itself, the query text and a trailing NUL terminator, the
/// text, and the terminator.
pub open spec fn spec_simple_query(text: Seq<u8>) -> Seq<u8> {
    spec_frame(81u8, text + seq![0u8])
}

/// Encodes a Simple Query message for the given query text.
pub fn simple_query(text: &str) -> (r: Vec<u8>)
    requires
        text.spec_bytes().len() + 5 <= MAX_PAYLOAD_LEN,
    ensures
        r@ == spec_simple_query(text.spec_bytes()),
{
    let mut payload = text.as_bytes_vec();
    payload.push(0u8);
    proof {
        assert(payload@ =~= text.spec_bytes() + seq![0u8]);
    }
    frame_message(81u8, payload)
}

/// Encoding a query and decoding the resulting frame returns the query:
/// the decoder accepts everything the encoder can produce.
pub proof fn lemma_simple_query_round_trip(q: Seq<u8>)
    requires
        valid_utf8(q),
        q.len() + 5 <= 0x7fffffff,
    ensures
        spec_parse_query(spec_simple_query(q)) == Ok::<Seq<u8>, Error>(q),
{
    let len: u32 = (q.len() + 5) as u32;
    let b = spec_simple_query(q);
    assert(b =~= seq![81u8] + spec_be_u32(len) + q + seq![0u8]);
    assert(b.len() == q.len() + 6);
    assert(b[0] == 81u8);
    assert(b.subrange(1, 5) =~= spec_be_u32(len));
    lemma_be_u32_round_trip(len);
    assert(spec_be_u32_decode(b.subrange(1, 5)) == len);
    assert(b.subrange(5, len as int) =~= q);
}

/// Totality of the query decode: for every byte sequence the decode is
/// defined, and it yields either valid query text or one of the two
/// framing errors.
pub proof fn lemma_parse_query_total(b: Seq<u8>)
    ensures
        (match spec_parse_query(b) {
            Ok(q) => valid_utf8(q),
            Err(e) => e == Error::ProtocolSyncError || e == Error::QueryDecodeError,
        }),
{
}

pub fn parse_query(buf: &Vec<u8>) -> (r: Result<Vec<u8>, Error>)
    ensures
        (match r {
            Ok(q) => spec_parse_query(buf@) == Ok::<Seq<u8>, Error>(q@) && valid_utf8(q@),
            Err(e) => spec_parse_query(buf@) == Err::<Seq<u8>, Error>(e),
        }),
{
    if buf.len() == 0 {
        return Err(Error::QueryDecodeError);
    }
    if buf[0] != 81u8 {
        return Err(Error::ProtocolSyncError);
    }
    if buf.len() < 5 {
        return Err(Error::QueryDecodeError);
    }
    let len32 = be_u32_at(buf, 1);
    let len = len32 as u64;
    if len < 5 {
        return Err(Error::QueryDecodeError);
    }
    if (buf.len() as u64) < 1 + len {
        return Err(Error::QueryDecodeError);
    }
    let end: usize = len as usize;
    let mut text: Vec<u8> = Vec::new();
    let mut i: usize = 5;
    while i < end
        invariant
            5 <= i <= end,
            end <= buf@.len(),
            text@ == buf@.subrange(5, i as int),
        decreases end - i,
    {
        text.push(buf[i]);
        proof {
            assert(text@ =~= buf@.subrange(5, i + 1));
        }
        i = i + 1;
    }
    if !is_valid_utf8(&text) {
        return Err(Error::QueryDecodeError);
    }
    Ok(text)
}

} // verus!
