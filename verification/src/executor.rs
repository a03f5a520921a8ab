//! Commands: one logical unit of work — a SQL batch with zero or more
//! typed parameters — and its encoding into a request payload.

use vstd::prelude::*;
use crate::endian::{be16_bytes, be32_bytes, push_be16, push_be32};
use crate::token::{ColKind, Value, ValueModel, col_wf, value_wf, value_bytes, kind_bytes, push_bytes, push_value};

verus! {

/// One typed command parameter: its declared wire kind and its value.
#[derive(Debug, Clone, PartialEq, Eq)]
pub struct Param {
    pub kind: ColKind,
    pub value: Value,
}

/// Ghost mirror of `Param`.
pub struct ParamModel {
    pub kind: ColKind,
    pub value: ValueModel,
}

impl View for Param {
    type V = ParamModel;

    open spec fn view(&self) -> ParamModel {
        ParamModel { kind: self.kind, value: self.value@ }
    }
}

/// A command: the SQL text and its positionally bound parameters. It
/// exists only for the duration of one execute or describe call.
#[derive(Debug, Clone, PartialEq, Eq)]
pub struct Command {
    pub text: Vec<u8>,
    pub params: Vec<Param>,
}

/// Ghost mirror of `Command`.
pub struct CommandModel {
    pub text: Seq<u8>,
    pub params: Seq<ParamModel>,
}

impl View for Command {
    type V = CommandModel;

    open spec fn view(&self) -> CommandModel {
        CommandModel {
            text: self.text@,
            params: self.params@.map_values(|p: Param| p@),
        }
    }
}

/// The wire limits a command must fit: a 32-bit text length, a 16-bit
/// parameter count, and values that fit their declared kinds.
pub open spec fn command_wf(c: CommandModel) -> bool {
    &&& c.text.len() <= 0xFFFFFFFF
    &&& c.params.len() <= 0xFFFF
    &&& forall|i: int|
        0 <= i < c.params.len() ==> col_wf(#[trigger] c.params[i].kind) && value_wf(
            c.params[i].kind,
            c.params[i].value,
        )
}

/// The wire bytes of the parameters from index `i` on: each parameter
/// as its kind declaration followed by its value.
pub open spec fn params_bytes_from(ps: Seq<ParamModel>, i: int) -> Seq<u8>
    decreases ps.len() - i,
{
    if i < 0 || i >= ps.len() {
        Seq::empty()
    } else {
        kind_bytes(ps[i].kind) + value_bytes(ps[i].kind, ps[i].value) + params_bytes_from(
            ps,
            i + 1,
        )
    }
}

/// The request payload of a command: a flag byte (nonzero for a
/// describe-only request), the 32-bit text length and the text, then
/// the 16-bit parameter count and the parameters.
pub open spec fn encode_command(c: CommandModel, describe_only: bool) -> Seq<u8> {
    seq![if describe_only { 1u8 } else { 0u8 }] + be32_bytes(c.text.len() as u32) + c.text
        + be16_bytes(c.params.len() as u16) + params_bytes_from(c.params, 0)
}

fn push_params_from(out: &mut Vec<u8>, ps: &Vec<Param>, i: usize)
    requires
        i <= ps@.len(),
        forall|j: int|
            0 <= j < ps@.len() ==> col_wf(#[trigger] ps@[j]@.kind) && value_wf(
                ps@[j]@.kind,
                ps@[j]@.value,
            ),
    ensures
        final(out)@ == old(out)@ + params_bytes_from(ps@.map_values(|p: Param| p@), i as int),
    decreases ps@.len() - i,
{
    if i < ps.len() {
        let p = &ps[i];
        match p.kind {
            ColKind::Fixed(n) => {
                out.push(0u8);
                out.push(n);
            },
            ColKind::Var => {
                out.push(1u8);
            },
            ColKind::NullTerm => {
                out.push(2u8);
            },
        }
        proof {
            assert(out@ =~= old(out)@ + kind_bytes(ps@[i as int]@.kind));
        }
        push_value(out, p.kind, &p.value);
        push_params_from(out, ps, i + 1);
        proof {
            assert(out@ =~= old(out)@ + params_bytes_from(
                ps@.map_values(|p: Param| p@),
                i as int,
            ));
        }
    }
}

/// Builds the request payload of `cmd`.
pub fn command_payload(cmd: &Command, describe_only: bool) -> (r: Vec<u8>)
    requires
        command_wf(cmd@),
    ensures
        r@ == encode_command(cmd@, describe_only),
{
    let mut out: Vec<u8> = Vec::new();
    if describe_only {
        out.push(1u8);
    } else {
        out.push(0u8);
    }
    push_be32(&mut out, cmd.text.len() as u32);
    push_bytes(&mut out, &cmd.text);
    push_be16(&mut out, cmd.params.len() as u16);
    proof {
        assert forall|j: int| 0 <= j < cmd.params@.len() implies col_wf(
            #[trigger] cmd.params@[j]@.kind,
        ) && value_wf(cmd.params@[j]@.kind, cmd.params@[j]@.value) by {
            assert(cmd@.params[j] == cmd.params@[j]@);
        }
    }
    push_params_from(&mut out, &cmd.params, 0);
    proof {
        assert(out@ =~= encode_command(cmd@, describe_only));
    }
    out
}

/// Whether a command fits the wire limits; the runtime counterpart of
/// `command_wf`.
pub fn command_ok(cmd: &Command) -> (r: bool)
    ensures
        r == command_wf(cmd@),
{
    if cmd.text.len() > 0xFFFFFFFFusize || cmd.params.len() > 0xFFFF {
        return false;
    }
    let mut i: usize = 0;
    while i < cmd.params.len()
        invariant
            i <= cmd.params@.len(),
            cmd@.params.len() == cmd.params@.len(),
            forall|j: int|
                0 <= j < i ==> col_wf(#[trigger] cmd@.params[j].kind) && value_wf(
                    cmd@.params[j].kind,
                    cmd@.params[j].value,
                ),
        decreases cmd.params@.len() - i,
    {
        let p = &cmd.params[i];
        let kind_fits: bool = match p.kind {
            ColKind::Fixed(n) => 1 <= n && n <= 8,
            ColKind::Var => true,
            ColKind::NullTerm => true,
        };
        proof {
            assert(cmd@.params[i as int] == cmd.params@[i as int]@);
            assert(kind_fits == col_wf(cmd@.params[i as int].kind));
        }
        if !kind_fits {
            return false;
        }
        let value_fits: bool = match (&p.kind, &p.value) {
            (_, Value::Null) => true,
            (ColKind::Fixed(n), Value::Bytes(bs)) => bs.len() == *n as usize,
            (ColKind::Var, Value::Bytes(bs)) => bs.len() <= 0xFFFE,
            (ColKind::NullTerm, Value::Bytes(bs)) => !contains_zero(bs),
        };
        proof {
            assert(value_fits == value_wf(cmd@.params[i as int].kind, cmd@.params[i as int].value));
        }
        if !value_fits {
            return false;
        }
        i = i + 1;
    }
    true
}

/// Whether `bs` holds a zero byte.
fn contains_zero(bs: &Vec<u8>) -> (r: bool)
    ensures
        r == bs@.contains(0u8),
{
    let mut i: usize = 0;
    while i < bs.len()
        invariant
            i <= bs@.len(),
            forall|j: int| 0 <= j < i ==> bs@[j] != 0u8,
        decreases bs@.len() - i,
    {
        if bs[i] == 0 {
            return true;
        }
        i = i + 1;
    }
    proof {
        assert(!bs@.contains(0u8));
    }
    false
}

} // verus!
