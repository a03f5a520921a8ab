//! The token layer of a response message: the closed set of token
//! kinds, the typed values rows carry, and the wire encodings of each
//! token. Encoders are used to build messages (and by tests that play
//! the server's side of an exchange); `crate::decode` holds the
//! decoders.

use vstd::prelude::*;
use crate::endian::{be16_bytes, be32_bytes, be64_bytes, push_be16, push_be32, push_be64};

verus! {

/// Token code of a column-metadata token.
pub const TOKEN_COLMETADATA: u8 = 0x81;

/// Token code of a row token.
pub const TOKEN_ROW: u8 = 0xD1;

/// Token code of a completion token.
pub const TOKEN_DONE: u8 = 0xFD;

/// Token code of a server error token.
pub const TOKEN_ERROR: u8 = 0xAA;

/// Token code of an informational token.
pub const TOKEN_INFO: u8 = 0xAB;

/// Token code of a login-acknowledgement token.
pub const TOKEN_LOGINACK: u8 = 0xAD;

/// Token code of an authentication-challenge token.
pub const TOKEN_CHALLENGE: u8 = 0xED;

/// Completion-status bit reporting a failed statement.
pub const DONE_ERROR_BIT: u16 = 2;

/// The declared wire kind of a column or parameter: fixed-length of a
/// given byte width, length-prefixed variable-length, or
/// null-terminated.
#[derive(Clone, Copy, PartialEq, Eq, Structural, Debug)]
pub enum ColKind {
    Fixed(u8),
    Var,
    NullTerm,
}

/// A fixed-length column carries one to eight bytes.
pub open spec fn col_wf(k: ColKind) -> bool {
    match k {
        ColKind::Fixed(n) => 1 <= n <= 8,
        ColKind::Var => true,
        ColKind::NullTerm => true,
    }
}

/// A decoded cell value: explicitly absent, or raw bytes.
#[derive(Debug, Clone, PartialEq, Eq)]
pub enum Value {
    Null,
    Bytes(Vec<u8>),
}

/// Ghost mirror of `Value`.
pub enum ValueModel {
    Null,
    Bytes(Seq<u8>),
}

impl View for Value {
    type V = ValueModel;

    open spec fn view(&self) -> ValueModel {
        match self {
            Value::Null => ValueModel::Null,
            Value::Bytes(b) => ValueModel::Bytes(b@),
        }
    }
}

/// Whether a value can be carried by a column of kind `k`.
pub open spec fn value_wf(k: ColKind, v: ValueModel) -> bool {
    match v {
        ValueModel::Null => true,
        ValueModel::Bytes(b) => match k {
            ColKind::Fixed(n) => b.len() == n,
            ColKind::Var => b.len() <= 0xFFFE,
            ColKind::NullTerm => !b.contains(0u8),
        },
    }
}

/// The wire bytes of one value under a column of kind `k`: fixed-length
/// values carry a null-indicator length byte, variable-length values a
/// 16-bit length prefix (all ones meaning null), null-terminated values
/// an indicator byte and a terminating zero.
pub open spec fn value_bytes(k: ColKind, v: ValueModel) -> Seq<u8> {
    match k {
        ColKind::Fixed(n) => match v {
            ValueModel::Null => seq![0u8],
            ValueModel::Bytes(b) => seq![n] + b,
        },
        ColKind::Var => match v {
            ValueModel::Null => be16_bytes(0xFFFF),
            ValueModel::Bytes(b) => be16_bytes(b.len() as u16) + b,
        },
        ColKind::NullTerm => match v {
            ValueModel::Null => seq![0u8],
            ValueModel::Bytes(b) => seq![1u8] + b + seq![0u8],
        },
    }
}

/// The wire bytes declaring a column kind.
pub open spec fn kind_bytes(k: ColKind) -> Seq<u8> {
    match k {
        ColKind::Fixed(n) => seq![0u8, n],
        ColKind::Var => seq![1u8],
        ColKind::NullTerm => seq![2u8],
    }
}

/// One result set of a response: its columns, its rows in server
/// emission order, and the completion token's final status and
/// affected-row count.
#[derive(Debug, Clone, PartialEq, Eq)]
pub struct ResultSet {
    pub columns: Vec<ColKind>,
    pub rows: Vec<Vec<Value>>,
    pub status: u16,
    pub affected: u64,
}

/// Ghost mirror of `ResultSet`.
pub struct ResultSetModel {
    pub columns: Seq<ColKind>,
    pub rows: Seq<Seq<ValueModel>>,
    pub status: u16,
    pub affected: u64,
}

/// The ghost view of one row.
pub open spec fn row_view(r: Seq<Value>) -> Seq<ValueModel> {
    r.map_values(|v: Value| v@)
}

/// The ghost view of a sequence of rows.
pub open spec fn rows_view(rs: Seq<Vec<Value>>) -> Seq<Seq<ValueModel>> {
    rs.map_values(|r: Vec<Value>| row_view(r@))
}

impl View for ResultSet {
    type V = ResultSetModel;

    open spec fn view(&self) -> ResultSetModel {
        ResultSetModel {
            columns: self.columns@,
            rows: rows_view(self.rows@),
            status: self.status,
            affected: self.affected,
        }
    }
}

/// The ghost view of a sequence of result sets.
pub open spec fn sets_view(ss: Seq<ResultSet>) -> Seq<ResultSetModel> {
    ss.map_values(|s: ResultSet| s@)
}

/// Prepending a row prepends its view.
pub proof fn lemma_rows_view_prepend(head: Vec<Value>, tail: Seq<Vec<Value>>)
    ensures
        rows_view(tail.insert(0, head)) == seq![row_view(head@)] + rows_view(tail),
{
    assert(rows_view(tail.insert(0, head)) =~= seq![row_view(head@)] + rows_view(tail));
}

/// Prepending a set prepends its view.
pub proof fn lemma_sets_view_prepend(head: ResultSet, tail: Seq<ResultSet>)
    ensures
        sets_view(tail.insert(0, head)) == seq![head@] + sets_view(tail),
{
    assert(sets_view(tail.insert(0, head)) =~= seq![head@] + sets_view(tail));
}

/// The ordered result sets decoded from one response message.
#[derive(Debug, Clone, PartialEq, Eq)]
pub struct QueryResult {
    pub sets: Vec<ResultSet>,
}

impl View for QueryResult {
    type V = Seq<ResultSetModel>;

    open spec fn view(&self) -> Seq<ResultSetModel> {
        sets_view(self.sets@)
    }
}

/// A result set reports success when the completion token's error bit
/// is clear.
pub open spec fn done_success(status: u16) -> bool {
    status & DONE_ERROR_BIT == 0
}

/// Appends the raw bytes of `src` to `out`.
pub fn push_bytes(out: &mut Vec<u8>, src: &Vec<u8>)
    ensures
        final(out)@ == old(out)@ + src@,
{
    let ghost pre = out@;
    let mut i: usize = 0;
    while i < src.len()
        invariant
            i <= src@.len(),
            out@ == pre + src@.take(i as int),
        decreases src@.len() - i,
    {
        out.push(src[i]);
        proof {
            assert(out@ =~= pre + src@.take(i as int + 1));
        }
        i = i + 1;
    }
    proof {
        assert(out@ =~= pre + src@);
    }
}

/// Appends one value in its wire encoding under kind `k`.
pub fn push_value(out: &mut Vec<u8>, k: ColKind, v: &Value)
    requires
        col_wf(k),
        value_wf(k, v@),
    ensures
        final(out)@ == old(out)@ + value_bytes(k, v@),
{
    match (k, v) {
        (ColKind::Fixed(_n), Value::Null) => {
            out.push(0u8);
            proof {
                assert(out@ =~= old(out)@ + value_bytes(k, v@));
            }
        },
        (ColKind::Fixed(n), Value::Bytes(b)) => {
            out.push(n);
            push_bytes(out, b);
            proof {
                assert(out@ =~= old(out)@ + value_bytes(k, v@));
            }
        },
        (ColKind::Var, Value::Null) => {
            push_be16(out, 0xFFFF);
        },
        (ColKind::Var, Value::Bytes(b)) => {
            push_be16(out, b.len() as u16);
            push_bytes(out, b);
            proof {
                assert(out@ =~= old(out)@ + value_bytes(k, v@));
            }
        },
        (ColKind::NullTerm, Value::Null) => {
            out.push(0u8);
            proof {
                assert(out@ =~= old(out)@ + value_bytes(k, v@));
            }
        },
        (ColKind::NullTerm, Value::Bytes(b)) => {
            out.push(1u8);
            push_bytes(out, b);
            out.push(0u8);
            proof {
                assert(out@ =~= old(out)@ + value_bytes(k, v@));
            }
        },
    }
}

/// The column declarations of `cols` from index `i` on.
pub open spec fn cols_bytes_from(cols: Seq<ColKind>, i: int) -> Seq<u8>
    decreases cols.len() - i,
{
    if i < 0 || i >= cols.len() {
        Seq::empty()
    } else {
        kind_bytes(cols[i]) + cols_bytes_from(cols, i + 1)
    }
}

/// The column-metadata token for `cols`: code, 16-bit column count,
/// then each column's kind declaration.
pub open spec fn colmeta_token(cols: Seq<ColKind>) -> Seq<u8> {
    seq![TOKEN_COLMETADATA] + be16_bytes(cols.len() as u16) + cols_bytes_from(cols, 0)
}

fn push_cols_from(out: &mut Vec<u8>, cols: &Vec<ColKind>, i: usize)
    requires
        i <= cols@.len(),
    ensures
        final(out)@ == old(out)@ + cols_bytes_from(cols@, i as int),
    decreases cols@.len() - i,
{
    if i < cols.len() {
        match cols[i] {
            ColKind::Fixed(n) => {
                out.push(0u8);
                out.push(n);
            },
            ColKind::Var => {
                out.push(1u8);
            },
            ColKind::NullTerm => {
                out.push(2u8);
            },
        }
        let ghost mid = out@;
        proof {
            assert(mid =~= old(out)@ + kind_bytes(cols@[i as int]));
        }
        push_cols_from(out, cols, i + 1);
        proof {
            assert(out@ =~= old(out)@ + cols_bytes_from(cols@, i as int));
        }
    }
}

/// Appends a column-metadata token for `cols`.
pub fn push_colmeta_token(out: &mut Vec<u8>, cols: &Vec<ColKind>)
    requires
        cols@.len() <= 0xFFFF,
    ensures
        final(out)@ == old(out)@ + colmeta_token(cols@),
{
    out.push(TOKEN_COLMETADATA);
    push_be16(out, cols.len() as u16);
    push_cols_from(out, cols, 0);
    proof {
        assert(out@ =~= old(out)@ + colmeta_token(cols@));
    }
}

/// The wire bytes of the values of one row under `cols`, from column
/// `i` on.
pub open spec fn row_bytes_from(cols: Seq<ColKind>, vals: Seq<ValueModel>, i: int) -> Seq<u8>
    decreases cols.len() - i,
{
    if i < 0 || i >= cols.len() {
        Seq::empty()
    } else {
        value_bytes(cols[i], vals[i]) + row_bytes_from(cols, vals, i + 1)
    }
}

/// The row token for one row of values under `cols`.
pub open spec fn row_token(cols: Seq<ColKind>, vals: Seq<ValueModel>) -> Seq<u8> {
    seq![TOKEN_ROW] + row_bytes_from(cols, vals, 0)
}

fn push_row_from(out: &mut Vec<u8>, cols: &Vec<ColKind>, vals: &Vec<Value>, i: usize)
    requires
        i <= cols@.len(),
        cols@.len() == vals@.len(),
        forall|j: int| 0 <= j < cols@.len() ==> col_wf(cols@[j]),
        forall|j: int| 0 <= j < cols@.len() ==> value_wf(cols@[j], #[trigger] vals@[j]@),
    ensures
        final(out)@ == old(out)@ + row_bytes_from(cols@, row_view(vals@), i as int),
    decreases cols@.len() - i,
{
    if i < cols.len() {
        push_value(out, cols[i], &vals[i]);
        push_row_from(out, cols, vals, i + 1);
        proof {
            assert(out@ =~= old(out)@ + row_bytes_from(cols@, row_view(vals@), i as int));
        }
    }
}

/// Appends a row token carrying `vals` under `cols`.
pub fn push_row_token(out: &mut Vec<u8>, cols: &Vec<ColKind>, vals: &Vec<Value>)
    requires
        cols@.len() == vals@.len(),
        forall|j: int| 0 <= j < cols@.len() ==> col_wf(cols@[j]),
        forall|j: int| 0 <= j < cols@.len() ==> value_wf(cols@[j], #[trigger] vals@[j]@),
    ensures
        final(out)@ == old(out)@ + row_token(cols@, row_view(vals@)),
{
    out.push(TOKEN_ROW);
    push_row_from(out, cols, vals, 0);
    proof {
        assert(out@ =~= old(out)@ + row_token(cols@, row_view(vals@)));
    }
}

/// The completion token: code, 16-bit final status, 64-bit
/// affected-row count.
pub open spec fn done_token(status: u16, affected: u64) -> Seq<u8> {
    seq![TOKEN_DONE] + be16_bytes(status) + be64_bytes(affected)
}

/// Appends a completion token.
pub fn push_done_token(out: &mut Vec<u8>, status: u16, affected: u64)
    ensures
        final(out)@ == old(out)@ + done_token(status, affected),
{
    out.push(TOKEN_DONE);
    push_be16(out, status);
    push_be64(out, affected);
    proof {
        assert(out@ =~= old(out)@ + done_token(status, affected));
    }
}

/// The body shared by error and informational tokens: 32-bit server
/// error number, 16-bit message length, message bytes.
pub open spec fn notice_body(number: u32, msg: Seq<u8>) -> Seq<u8> {
    be32_bytes(number) + be16_bytes(msg.len() as u16) + msg
}

/// The server error token.
pub open spec fn error_token(number: u32, msg: Seq<u8>) -> Seq<u8> {
    seq![TOKEN_ERROR] + notice_body(number, msg)
}

/// The informational token.
pub open spec fn info_token(number: u32, msg: Seq<u8>) -> Seq<u8> {
    seq![TOKEN_INFO] + notice_body(number, msg)
}

/// Appends a server error token.
pub fn push_error_token(out: &mut Vec<u8>, number: u32, msg: &Vec<u8>)
    requires
        msg@.len() <= 0xFFFF,
    ensures
        final(out)@ == old(out)@ + error_token(number, msg@),
{
    out.push(TOKEN_ERROR);
    push_be32(out, number);
    push_be16(out, msg.len() as u16);
    push_bytes(out, msg);
    proof {
        assert(out@ =~= old(out)@ + error_token(number, msg@));
    }
}

/// Appends an informational token.
pub fn push_info_token(out: &mut Vec<u8>, number: u32, msg: &Vec<u8>)
    requires
        msg@.len() <= 0xFFFF,
    ensures
        final(out)@ == old(out)@ + info_token(number, msg@),
{
    out.push(TOKEN_INFO);
    push_be32(out, number);
    push_be16(out, msg.len() as u16);
    push_bytes(out, msg);
    proof {
        assert(out@ =~= old(out)@ + info_token(number, msg@));
    }
}

/// The login-acknowledgement token: code, negotiated protocol version,
/// negotiated packet size.
pub open spec fn loginack_token(version: u32, packet_size: u32) -> Seq<u8> {
    seq![TOKEN_LOGINACK] + be32_bytes(version) + be32_bytes(packet_size)
}

/// Appends a login-acknowledgement token.
pub fn push_loginack_token(out: &mut Vec<u8>, version: u32, packet_size: u32)
    ensures
        final(out)@ == old(out)@ + loginack_token(version, packet_size),
{
    out.push(TOKEN_LOGINACK);
    push_be32(out, version);
    push_be32(out, packet_size);
    proof {
        assert(out@ =~= old(out)@ + loginack_token(version, packet_size));
    }
}

/// The authentication-challenge token: code, 16-bit blob length, blob.
pub open spec fn challenge_token(blob: Seq<u8>) -> Seq<u8> {
    seq![TOKEN_CHALLENGE] + be16_bytes(blob.len() as u16) + blob
}

/// Appends an authentication-challenge token.
pub fn push_challenge_token(out: &mut Vec<u8>, blob: &Vec<u8>)
    requires
        blob@.len() <= 0xFFFF,
    ensures
        final(out)@ == old(out)@ + challenge_token(blob@),
{
    out.push(TOKEN_CHALLENGE);
    push_be16(out, blob.len() as u16);
    push_bytes(out, blob);
    proof {
        assert(out@ =~= old(out)@ + challenge_token(blob@));
    }
}

} // verus!
