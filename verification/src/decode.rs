//! Decoding a response message's token stream into result sets. The
//! grammar is closed and token-driven: informational tokens anywhere
//! between sets, then per result set a column-metadata token, row
//! tokens, and a completion token; a server error token ends decoding
//! with a database failure; anything else is a protocol failure.
//!
//! Every executable decoder is proved to agree exactly with a
//! specification-level decoder over the raw bytes.

use vstd::prelude::*;
use crate::endian::{be16_val, be32_val, be64_val, read_be16, read_be32, read_be64};
use crate::error::MssqlError;
use crate::token::{
    ColKind, Value, ValueModel, ResultSet, ResultSetModel, QueryResult, row_view, rows_view,
    sets_view, lemma_sets_view_prepend, lemma_rows_view_prepend, TOKEN_COLMETADATA, TOKEN_ROW, TOKEN_DONE, TOKEN_ERROR, TOKEN_INFO,
};

verus! {

/// Index of the first zero byte at or after `pos`, if any.
pub open spec fn find_nul(b: Seq<u8>, pos: int) -> Option<int>
    decreases b.len() - pos,
{
    if pos < 0 || pos >= b.len() {
        None
    } else if b[pos] == 0 {
        Some(pos)
    } else {
        find_nul(b, pos + 1)
    }
}

/// Parses one column-kind declaration at `pos`: the kind and the bytes
/// consumed.
pub open spec fn spec_col_kind(b: Seq<u8>, pos: int) -> Option<(ColKind, nat)> {
    if pos < 0 || pos >= b.len() {
        None
    } else if b[pos] == 0 {
        if pos + 2 <= b.len() && 1 <= b[pos + 1] <= 8 {
            Some((ColKind::Fixed(b[pos + 1]), 2 as nat))
        } else {
            None
        }
    } else if b[pos] == 1 {
        Some((ColKind::Var, 1 as nat))
    } else if b[pos] == 2 {
        Some((ColKind::NullTerm, 1 as nat))
    } else {
        None
    }
}

/// Parses `n` column-kind declarations at `pos`.
pub open spec fn spec_cols(b: Seq<u8>, pos: int, n: int) -> Option<(Seq<ColKind>, nat)>
    decreases n,
{
    if n <= 0 {
        Some((Seq::empty(), 0 as nat))
    } else {
        match spec_col_kind(b, pos) {
            None => None,
            Some((k, c)) => match spec_cols(b, pos + c, n - 1) {
                None => None,
                Some((ks, c2)) => Some((seq![k] + ks, (c + c2) as nat)),
            },
        }
    }
}

/// Parses one value at `pos` under a column of kind `k`.
pub open spec fn spec_value(b: Seq<u8>, pos: int, k: ColKind) -> Option<(ValueModel, nat)> {
    match k {
        ColKind::Fixed(n) => {
            if pos < 0 || pos >= b.len() {
                None
            } else if b[pos] == 0 {
                Some((ValueModel::Null, 1 as nat))
            } else if b[pos] == n && pos + 1 + n <= b.len() {
                Some((ValueModel::Bytes(b.subrange(pos + 1, pos + 1 + n)), (1 + n) as nat))
            } else {
                None
            }
        },
        ColKind::Var => {
            if pos < 0 || pos + 2 > b.len() {
                None
            } else {
                let l = be16_val(b[pos], b[pos + 1]) as int;
                if l == 0xFFFF {
                    Some((ValueModel::Null, 2 as nat))
                } else if pos + 2 + l <= b.len() {
                    Some((ValueModel::Bytes(b.subrange(pos + 2, pos + 2 + l)), (2 + l) as nat))
                } else {
                    None
                }
            }
        },
        ColKind::NullTerm => {
            if pos < 0 || pos >= b.len() {
                None
            } else if b[pos] == 0 {
                Some((ValueModel::Null, 1 as nat))
            } else if b[pos] == 1 {
                match find_nul(b, pos + 1) {
                    None => None,
                    Some(z) => Some((ValueModel::Bytes(b.subrange(pos + 1, z)), (z + 1 - pos) as nat)),
                }
            } else {
                None
            }
        },
    }
}

/// Parses the values of one row, columns `i` on.
pub open spec fn spec_row_values(b: Seq<u8>, pos: int, cols: Seq<ColKind>, i: int) -> Option<
    (Seq<ValueModel>, nat),
>
    decreases cols.len() - i,
{
    if i < 0 || i >= cols.len() {
        Some((Seq::empty(), 0 as nat))
    } else {
        match spec_value(b, pos, cols[i]) {
            None => None,
            Some((v, c)) => match spec_row_values(b, pos + c, cols, i + 1) {
                None => None,
                Some((vs, c2)) => Some((seq![v] + vs, (c + c2) as nat)),
            },
        }
    }
}

/// Parses the body shared by error and informational tokens, the tag
/// byte included: the server error number, the message, and the bytes
/// consumed.
pub open spec fn spec_notice(b: Seq<u8>, pos: int) -> Option<(u32, Seq<u8>, nat)> {
    if pos < 0 || pos + 7 > b.len() {
        None
    } else {
        let number = be32_val(b[pos + 1], b[pos + 2], b[pos + 3], b[pos + 4]);
        let ml = be16_val(b[pos + 5], b[pos + 6]) as int;
        if pos + 7 + ml <= b.len() {
            Some((number, b.subrange(pos + 7, pos + 7 + ml), (7 + ml) as nat))
        } else {
            None
        }
    }
}

/// Parses the completion token at `pos`: final status and
/// affected-row count.
pub open spec fn spec_done(b: Seq<u8>, pos: int) -> (u16, u64) {
    (
        be16_val(b[pos + 1], b[pos + 2]),
        be64_val(
            be32_val(b[pos + 3], b[pos + 4], b[pos + 5], b[pos + 6]),
            be32_val(b[pos + 7], b[pos + 8], b[pos + 9], b[pos + 10]),
        ),
    )
}

/// Outcome of decoding the rows of one result set up to its completion
/// token.
pub enum RowsOutcome {
    /// The rows, the completion token's status and affected-row count,
    /// and the bytes consumed.
    Finished(Seq<Seq<ValueModel>>, u16, u64, nat),
    /// A server error token: error number and message.
    Failure(u32, Seq<u8>),
    Malformed,
}

/// Decodes row tokens under `cols` until a completion token.
/// Informational tokens in between are skipped.
pub open spec fn spec_rows(b: Seq<u8>, pos: int, cols: Seq<ColKind>) -> RowsOutcome
    decreases b.len() - pos,
{
    if pos < 0 || pos >= b.len() {
        RowsOutcome::Malformed
    } else {
        let tag = b[pos];
        if tag == TOKEN_ROW {
            match spec_row_values(b, pos + 1, cols, 0) {
                None => RowsOutcome::Malformed,
                Some((vals, c)) => {
                    let p2 = pos + 1 + c;
                    if p2 > b.len() {
                        RowsOutcome::Malformed
                    } else {
                        match spec_rows(b, p2, cols) {
                            RowsOutcome::Finished(rows, st, aff, c2) => RowsOutcome::Finished(
                                seq![vals] + rows,
                                st,
                                aff,
                                (1 + c + c2) as nat,
                            ),
                            x => x,
                        }
                    }
                },
            }
        } else if tag == TOKEN_DONE {
            if pos + 11 <= b.len() {
                let (st, aff) = spec_done(b, pos);
                RowsOutcome::Finished(Seq::empty(), st, aff, 11 as nat)
            } else {
                RowsOutcome::Malformed
            }
        } else if tag == TOKEN_ERROR {
            match spec_notice(b, pos) {
                Some((number, msg, _c)) => RowsOutcome::Failure(number, msg),
                None => RowsOutcome::Malformed,
            }
        } else if tag == TOKEN_INFO {
            match spec_notice(b, pos) {
                Some((_number, _msg, c)) => {
                    let p2 = pos + c;
                    if p2 > b.len() || p2 <= pos {
                        RowsOutcome::Malformed
                    } else {
                        match spec_rows(b, p2, cols) {
                            RowsOutcome::Finished(rows, st, aff, c2) => RowsOutcome::Finished(
                                rows,
                                st,
                                aff,
                                (c + c2) as nat,
                            ),
                            x => x,
                        }
                    }
                },
                None => RowsOutcome::Malformed,
            }
        } else {
            RowsOutcome::Malformed
        }
    }
}

/// Outcome of decoding a whole response payload.
pub enum DecodeOutcome {
    /// The result sets, in server emission order.
    Rows(Seq<ResultSetModel>),
    /// A server error token: error number and message.
    Failure(u32, Seq<u8>),
    Malformed,
}

/// Outcome of decoding one result set opened by a column-metadata
/// token.
pub enum MetaOutcome {
    /// The set and the bytes consumed.
    Parsed(ResultSetModel, nat),
    /// A server error token: error number and message.
    Failure(u32, Seq<u8>),
    Malformed,
}

/// Decodes one result set at `pos`, where `b[pos]` is the
/// column-metadata token code: the column count, the column kinds, the
/// rows, and the completion token.
pub open spec fn spec_meta_set(b: Seq<u8>, pos: int) -> MetaOutcome {
    if pos + 3 > b.len() {
        MetaOutcome::Malformed
    } else {
        let n = be16_val(b[pos + 1], b[pos + 2]) as int;
        match spec_cols(b, pos + 3, n) {
            None => MetaOutcome::Malformed,
            Some((ks, c)) => {
                let p2 = pos + 3 + c;
                if p2 > b.len() {
                    MetaOutcome::Malformed
                } else {
                    match spec_rows(b, p2, ks) {
                        RowsOutcome::Finished(rows, st, aff, c2) => MetaOutcome::Parsed(
                            ResultSetModel { columns: ks, rows, status: st, affected: aff },
                            (3 + c + c2) as nat,
                        ),
                        RowsOutcome::Failure(number, msg) => MetaOutcome::Failure(number, msg),
                        RowsOutcome::Malformed => MetaOutcome::Malformed,
                    }
                }
            },
        }
    }
}

/// Decodes the token stream from `pos` to the end of the payload.
pub open spec fn spec_sets(b: Seq<u8>, pos: int) -> DecodeOutcome
    decreases b.len() - pos,
{
    if pos == b.len() {
        DecodeOutcome::Rows(Seq::empty())
    } else if pos < 0 || pos > b.len() {
        DecodeOutcome::Malformed
    } else {
        let tag = b[pos];
        if tag == TOKEN_INFO {
            match spec_notice(b, pos) {
                Some((_number, _msg, c)) => {
                    let p2 = pos + c;
                    if p2 > b.len() || p2 <= pos {
                        DecodeOutcome::Malformed
                    } else {
                        spec_sets(b, p2)
                    }
                },
                None => DecodeOutcome::Malformed,
            }
        } else if tag == TOKEN_ERROR {
            match spec_notice(b, pos) {
                Some((number, msg, _c)) => DecodeOutcome::Failure(number, msg),
                None => DecodeOutcome::Malformed,
            }
        } else if tag == TOKEN_DONE {
            if pos + 11 <= b.len() {
                let (st, aff) = spec_done(b, pos);
                let set = ResultSetModel {
                    columns: Seq::empty(),
                    rows: Seq::empty(),
                    status: st,
                    affected: aff,
                };
                match spec_sets(b, pos + 11) {
                    DecodeOutcome::Rows(ss) => DecodeOutcome::Rows(seq![set] + ss),
                    x => x,
                }
            } else {
                DecodeOutcome::Malformed
            }
        } else if tag == TOKEN_COLMETADATA {
            match spec_meta_set(b, pos) {
                MetaOutcome::Parsed(set, c) => {
                    let p3 = pos + c;
                    if p3 > b.len() || p3 <= pos {
                        DecodeOutcome::Malformed
                    } else {
                        match spec_sets(b, p3) {
                            DecodeOutcome::Rows(ss) => DecodeOutcome::Rows(seq![set] + ss),
                            x => x,
                        }
                    }
                },
                MetaOutcome::Failure(number, msg) => DecodeOutcome::Failure(number, msg),
                MetaOutcome::Malformed => DecodeOutcome::Malformed,
            }
        } else {
            DecodeOutcome::Malformed
        }
    }
}

/// Decodes a whole response payload.
pub open spec fn spec_decode_response(b: Seq<u8>) -> DecodeOutcome {
    spec_sets(b, 0)
}

fn read_col_kind(b: &Vec<u8>, pos: usize) -> (r: Option<(ColKind, usize)>)
    ensures
        match spec_col_kind(b@, pos as int) {
            None => r is None,
            Some((k, c)) => r matches Some(t) && t.0 == k && t.1 == c && c <= b@.len() - pos,
        },
{
    let n = b.len();
    if pos >= n {
        return None;
    }
    let tag = b[pos];
    if tag == 0 {
        if n >= 2 && pos <= n - 2 && 1 <= b[pos + 1] && b[pos + 1] <= 8 {
            Some((ColKind::Fixed(b[pos + 1]), 2))
        } else {
            None
        }
    } else if tag == 1 {
        Some((ColKind::Var, 1))
    } else if tag == 2 {
        Some((ColKind::NullTerm, 1))
    } else {
        None
    }
}

fn read_cols(b: &Vec<u8>, pos: usize, n: usize) -> (r: Option<(Vec<ColKind>, usize)>)
    requires
        pos <= b@.len(),
    ensures
        match spec_cols(b@, pos as int, n as int) {
            None => r is None,
            Some((ks, c)) => r matches Some(t) && t.0@ == ks && t.1 == c && c <= b@.len() - pos
                && pos + c <= b@.len(),
        },
    decreases n,
{
    // Binds the buffer length so that position sums below are known to
    // fit in usize.
    let total = b.len();
    if n == 0 {
        Some((Vec::new(), 0))
    } else {
        match read_col_kind(b, pos) {
            None => None,
            Some((k, c)) => {
                match read_cols(b, pos + c, n - 1) {
                    None => None,
                    Some((mut ks, c2)) => {
                        ks.insert(0, k);
                        proof {
                            if let Some((sks, _sc)) = spec_cols(b@, pos as int, n as int) {
                                assert(ks@ =~= sks);
                            }
                        }
                        Some((ks, c + c2))
                    },
                }
            },
        }
    }
}

fn read_nul(b: &Vec<u8>, pos: usize) -> (r: Option<usize>)
    requires
        pos <= b@.len(),
    ensures
        match find_nul(b@, pos as int) {
            None => r is None,
            Some(z) => r matches Some(x) && x == z && pos <= z < b@.len(),
        },
    decreases b@.len() - pos,
{
    let n = b.len();
    if pos >= n {
        None
    } else if b[pos] == 0 {
        Some(pos)
    } else {
        read_nul(b, pos + 1)
    }
}

/// Copies `b[from..to]` into a fresh vector.
fn copy_range(b: &Vec<u8>, from: usize, to: usize) -> (r: Vec<u8>)
    requires
        from <= to <= b@.len(),
    ensures
        r@ == b@.subrange(from as int, to as int),
{
    let mut out: Vec<u8> = Vec::new();
    let mut i = from;
    while i < to
        invariant
            from <= i <= to <= b@.len(),
            out@ == b@.subrange(from as int, i as int),
        decreases to - i,
    {
        out.push(b[i]);
        proof {
            assert(out@ =~= b@.subrange(from as int, i as int + 1));
        }
        i = i + 1;
    }
    out
}

fn read_value(b: &Vec<u8>, pos: usize, k: ColKind) -> (r: Option<(Value, usize)>)
    requires
        pos <= b@.len(),
    ensures
        match spec_value(b@, pos as int, k) {
            None => r is None,
            Some((v, c)) => r matches Some(t) && t.0@ == v && t.1 == c && c <= b@.len() - pos,
        },
{
    let n = b.len();
    match k {
        ColKind::Fixed(width) => {
            if pos >= n {
                return None;
            }
            let ind = b[pos];
            if ind == 0 {
                Some((Value::Null, 1))
            } else if ind == width && width as usize <= n - (pos + 1) {
                let bytes = copy_range(b, pos + 1, pos + 1 + width as usize);
                Some((Value::Bytes(bytes), 1 + width as usize))
            } else {
                None
            }
        },
        ColKind::Var => {
            if n < 2 || pos > n - 2 {
                return None;
            }
            let l = read_be16(b, pos);
            if l == 0xFFFF {
                Some((Value::Null, 2))
            } else if l as usize <= n - (pos + 2) {
                let bytes = copy_range(b, pos + 2, pos + 2 + l as usize);
                Some((Value::Bytes(bytes), 2 + l as usize))
            } else {
                None
            }
        },
        ColKind::NullTerm => {
            if pos >= n {
                return None;
            }
            let ind = b[pos];
            if ind == 0 {
                Some((Value::Null, 1))
            } else if ind == 1 {
                match read_nul(b, pos + 1) {
                    None => None,
                    Some(z) => {
                        let bytes = copy_range(b, pos + 1, z);
                        Some((Value::Bytes(bytes), z + 1 - pos))
                    },
                }
            } else {
                None
            }
        },
    }
}

fn read_row_values(b: &Vec<u8>, pos: usize, cols: &Vec<ColKind>, i: usize) -> (r: Option<
    (Vec<Value>, usize),
>)
    requires
        pos <= b@.len(),
        i <= cols@.len(),
    ensures
        match spec_row_values(b@, pos as int, cols@, i as int) {
            None => r is None,
            Some((vs, c)) => r matches Some(t) && row_view(t.0@) == vs && t.1 == c
                && c <= b@.len() - pos,
        },
    decreases cols@.len() - i,
{
    // Binds the buffer length so that position sums below are known to
    // fit in usize.
    let total = b.len();
    if i >= cols.len() {
        proof {
            assert(row_view(Seq::<Value>::empty()) =~= Seq::<ValueModel>::empty());
        }
        Some((Vec::new(), 0))
    } else {
        match read_value(b, pos, cols[i]) {
            None => None,
            Some((v, c)) => {
                match read_row_values(b, pos + c, cols, i + 1) {
                    None => None,
                    Some((mut vs, c2)) => {
                        vs.insert(0, v);
                        proof {
                            if let Some((svs, _sc)) = spec_row_values(
                                b@,
                                pos as int,
                                cols@,
                                i as int,
                            ) {
                                assert(row_view(vs@) =~= svs);
                            }
                        }
                        Some((vs, c + c2))
                    },
                }
            },
        }
    }
}

fn read_notice(b: &Vec<u8>, pos: usize) -> (r: Option<(u32, Vec<u8>, usize)>)
    requires
        pos <= b@.len(),
    ensures
        match spec_notice(b@, pos as int) {
            None => r is None,
            Some((number, msg, c)) => r matches Some(t) && t.0 == number && t.1@ == msg && t.2 == c
                && 7 <= c <= b@.len() - pos,
        },
{
    let n = b.len();
    if n < 7 || pos > n - 7 {
        return None;
    }
    let number = read_be32(b, pos + 1);
    let ml = read_be16(b, pos + 5);
    if ml as usize <= n - (pos + 7) {
        let msg = copy_range(b, pos + 7, pos + 7 + ml as usize);
        Some((number, msg, 7 + ml as usize))
    } else {
        None
    }
}

#[verifier::rlimit(100)]
#[verifier::spinoff_prover]
fn decode_rows(b: &Vec<u8>, pos: usize, cols: &Vec<ColKind>) -> (r: Result<
    (Vec<Vec<Value>>, u16, u64, usize),
    MssqlError,
>)
    requires
        pos <= b@.len(),
    ensures
        match spec_rows(b@, pos as int, cols@) {
            RowsOutcome::Finished(rows, st, aff, c) => r matches Ok(t) && rows_view(t.0@) == rows
                && t.1 == st && t.2 == aff && t.3 == c && c <= b@.len() - pos,
            RowsOutcome::Failure(number, msg) => r matches Err(MssqlError::Database {
                number: rn,
                message: rm,
            }) && rn == number && rm@ == msg,
            RowsOutcome::Malformed => r matches Err(MssqlError::Protocol),
        },
    decreases b@.len() - pos,
{
    let n = b.len();
    if pos >= n {
        return Err(MssqlError::Protocol);
    }
    let tag = b[pos];
    if tag == TOKEN_ROW {
        match read_row_values(b, pos + 1, cols, 0) {
            None => Err(MssqlError::Protocol),
            Some((vals, c)) => {
                let p2 = pos + 1 + c;
                if p2 > n {
                    return Err(MssqlError::Protocol);
                }
                match decode_rows(b, p2, cols) {
                    Ok((mut rows, st, aff, c2)) => {
                        let ghost tail = rows@;
                        rows.insert(0, vals);
                        proof {
                            lemma_rows_view_prepend(vals, tail);
                            if let RowsOutcome::Finished(srows, _sst, _saff, _sc) = spec_rows(
                                b@,
                                pos as int,
                                cols@,
                            ) {
                                assert(rows_view(rows@) =~= srows);
                            }
                        }
                        Ok((rows, st, aff, 1 + c + c2))
                    },
                    Err(e) => Err(e),
                }
            },
        }
    } else if tag == TOKEN_DONE {
        if n >= 11 && pos <= n - 11 {
            let st = read_be16(b, pos + 1);
            let aff = read_be64(b, pos + 3);
            proof {
                assert(rows_view(Seq::<Vec<Value>>::empty()) =~= Seq::<Seq<ValueModel>>::empty());
            }
            Ok((Vec::new(), st, aff, 11))
        } else {
            Err(MssqlError::Protocol)
        }
    } else if tag == TOKEN_ERROR {
        match read_notice(b, pos) {
            Some((number, message, _c)) => Err(MssqlError::Database { number, message }),
            None => Err(MssqlError::Protocol),
        }
    } else if tag == TOKEN_INFO {
        match read_notice(b, pos) {
            Some((_number, _msg, c)) => {
                let p2 = pos + c;
                if p2 > n || p2 <= pos {
                    return Err(MssqlError::Protocol);
                }
                match decode_rows(b, p2, cols) {
                    Ok((rows, st, aff, c2)) => Ok((rows, st, aff, c + c2)),
                    Err(e) => Err(e),
                }
            },
            None => Err(MssqlError::Protocol),
        }
    } else {
        Err(MssqlError::Protocol)
    }
}

/// Decodes one result set opened by a column-metadata token at `pos`,
/// returning the set and the bytes consumed.
#[verifier::rlimit(100)]
#[verifier::spinoff_prover]
fn decode_meta_set(b: &Vec<u8>, pos: usize) -> (r: Result<(ResultSet, usize), MssqlError>)
    requires
        pos <= b@.len(),
    ensures
        match spec_meta_set(b@, pos as int) {
            MetaOutcome::Parsed(set, c) => r matches Ok(t) && t.0@ == set && t.1 == c
                && c <= b@.len() - pos,
            MetaOutcome::Failure(number, msg) => r matches Err(MssqlError::Database {
                number: rn,
                message: rm,
            }) && rn == number && rm@ == msg,
            MetaOutcome::Malformed => r matches Err(MssqlError::Protocol),
        },
{
    let n = b.len();
    if n < 3 || pos > n - 3 {
        return Err(MssqlError::Protocol);
    }
    let count = read_be16(b, pos + 1);
    match read_cols(b, pos + 3, count as usize) {
        None => Err(MssqlError::Protocol),
        Some((ks, c)) => {
            let p2 = pos + 3 + c;
            if p2 > n {
                return Err(MssqlError::Protocol);
            }
            match decode_rows(b, p2, &ks) {
                Ok((rows, st, aff, c2)) => {
                    let set = ResultSet { columns: ks, rows, status: st, affected: aff };
                    Ok((set, 3 + c + c2))
                },
                Err(e) => Err(e),
            }
        },
    }
}

#[verifier::rlimit(100)]
#[verifier::spinoff_prover]
fn decode_sets(b: &Vec<u8>, pos: usize) -> (r: Result<Vec<ResultSet>, MssqlError>)
    requires
        pos <= b@.len(),
    ensures
        match spec_sets(b@, pos as int) {
            DecodeOutcome::Rows(ss) => r matches Ok(v) && sets_view(v@) == ss,
            DecodeOutcome::Failure(number, msg) => r matches Err(MssqlError::Database {
                number: rn,
                message: rm,
            }) && rn == number && rm@ == msg,
            DecodeOutcome::Malformed => r matches Err(MssqlError::Protocol),
        },
    decreases b@.len() - pos,
{
    let n = b.len();
    if pos == n {
        proof {
            assert(sets_view(Seq::<ResultSet>::empty()) =~= Seq::<ResultSetModel>::empty());
        }
        return Ok(Vec::new());
    }
    let tag = b[pos];
    if tag == TOKEN_INFO {
        match read_notice(b, pos) {
            Some((_number, _msg, c)) => {
                let p2 = pos + c;
                if p2 > n || p2 <= pos {
                    return Err(MssqlError::Protocol);
                }
                decode_sets(b, p2)
            },
            None => Err(MssqlError::Protocol),
        }
    } else if tag == TOKEN_ERROR {
        match read_notice(b, pos) {
            Some((number, message, _c)) => Err(MssqlError::Database { number, message }),
            None => Err(MssqlError::Protocol),
        }
    } else if tag == TOKEN_DONE {
        if n >= 11 && pos <= n - 11 {
            let st = read_be16(b, pos + 1);
            let aff = read_be64(b, pos + 3);
            let set = ResultSet { columns: Vec::new(), rows: Vec::new(), status: st, affected: aff };
            match decode_sets(b, pos + 11) {
                Ok(mut ss) => {
                    proof {
                        assert(set@.columns =~= Seq::<ColKind>::empty());
                        assert(set@.rows =~= Seq::<Seq<ValueModel>>::empty());
                    }
                    let ghost tail = ss@;
                    ss.insert(0, set);
                    proof {
                        lemma_sets_view_prepend(set, tail);
                        if let DecodeOutcome::Rows(sss) = spec_sets(b@, pos as int) {
                            assert(sets_view(ss@) =~= sss);
                        }
                    }
                    Ok(ss)
                },
                Err(e) => Err(e),
            }
        } else {
            Err(MssqlError::Protocol)
        }
    } else if tag == TOKEN_COLMETADATA {
        match decode_meta_set(b, pos) {
            Err(e) => Err(e),
            Ok((set, c)) => {
                let p3 = pos + c;
                if p3 > n || p3 <= pos {
                    return Err(MssqlError::Protocol);
                }
                match decode_sets(b, p3) {
                    Ok(mut ss) => {
                        let ghost tail = ss@;
                        ss.insert(0, set);
                        proof {
                            lemma_sets_view_prepend(set, tail);
                            if let DecodeOutcome::Rows(sss) = spec_sets(b@, pos as int) {
                                assert(sets_view(ss@) =~= sss);
                            }
                        }
                        Ok(ss)
                    },
                    Err(e) => Err(e),
                }
            },
        }
    } else {
        Err(MssqlError::Protocol)
    }
}

/// Decodes one whole response payload into its ordered result sets. A
/// server error token yields a `Database` failure; a malformed token
/// stream yields a `Protocol` failure.
pub fn decode_response(b: &Vec<u8>) -> (r: Result<QueryResult, MssqlError>)
    ensures
        match spec_decode_response(b@) {
            DecodeOutcome::Rows(ss) => r matches Ok(q) && q@ == ss,
            DecodeOutcome::Failure(number, msg) => r matches Err(MssqlError::Database {
                number: rn,
                message: rm,
            }) && rn == number && rm@ == msg,
            DecodeOutcome::Malformed => r matches Err(MssqlError::Protocol),
        },
{
    match decode_sets(b, 0) {
        Ok(sets) => Ok(QueryResult { sets }),
        Err(e) => Err(e),
    }
}

} // verus!

