//! Connection establishment: the one-shot, linear handshake that
//! negotiates version and packet size and authenticates, modelled as an
//! explicit finite-state machine. Each step sends one framed message
//! and consumes exactly one response message.

use vstd::prelude::*;
use crate::endian::{be16_bytes, be32_bytes, be16_val, be32_val, push_be16, push_be32, read_be16, read_be32};
use crate::error::{MssqlError, ErrorModel};
use crate::packet::{frame, scan, ScanResult, PACKET_TYPE_LOGIN, PACKET_TYPE_PRELOGIN, PACKET_TYPE_SSPI};
use crate::token::{TOKEN_LOGINACK, TOKEN_CHALLENGE, TOKEN_ERROR, TOKEN_INFO, push_bytes};
use crate::decode::spec_notice;

verus! {

/// The protocol version this client offers.
pub const CLIENT_TDS_VERSION: u32 = 0x74000004;

/// Packet size used before one has been negotiated.
pub const DEFAULT_PACKET_SIZE: usize = 4096;

/// Upper bound on authentication-challenge rounds the client accepts.
pub const MAX_CHALLENGE_ROUNDS: u8 = 2;

/// What establishment needs to know: credentials and the preferred
/// packet size. Deliberately not printable: the fields carry
/// credentials.
pub struct MssqlConnectOptions {
    pub username: Vec<u8>,
    pub password: Vec<u8>,
    pub requested_packet_size: u32,
}

/// Ghost mirror of `MssqlConnectOptions`.
pub struct OptionsModel {
    pub username: Seq<u8>,
    pub password: Seq<u8>,
    pub requested_packet_size: u32,
}

impl View for MssqlConnectOptions {
    type V = OptionsModel;

    open spec fn view(&self) -> OptionsModel {
        OptionsModel {
            username: self.username@,
            password: self.password@,
            requested_packet_size: self.requested_packet_size,
        }
    }
}

/// Wire limits on the options: 16-bit credential lengths and a
/// negotiable packet size.
pub open spec fn options_wf(o: OptionsModel) -> bool {
    &&& o.username.len() <= 0xFFFF
    &&& o.password.len() <= 0xFFFF
    &&& 512 <= o.requested_packet_size <= 0xFFFF
}

/// The pre-login payload: client version, then requested packet size.
pub open spec fn prelogin_payload(o: OptionsModel) -> Seq<u8> {
    be32_bytes(CLIENT_TDS_VERSION) + be32_bytes(o.requested_packet_size)
}

/// Builds the pre-login payload.
pub fn encode_prelogin(o: &MssqlConnectOptions) -> (r: Vec<u8>)
    ensures
        r@ == prelogin_payload(o@),
{
    let mut out: Vec<u8> = Vec::new();
    push_be32(&mut out, CLIENT_TDS_VERSION);
    push_be32(&mut out, o.requested_packet_size);
    proof {
        assert(out@ =~= prelogin_payload(o@));
    }
    out
}

/// The login payload: length-prefixed username, then length-prefixed
/// password.
pub open spec fn login_payload(o: OptionsModel) -> Seq<u8> {
    be16_bytes(o.username.len() as u16) + o.username + be16_bytes(o.password.len() as u16)
        + o.password
}

/// Builds the login payload.
pub fn encode_login(o: &MssqlConnectOptions) -> (r: Vec<u8>)
    requires
        options_wf(o@),
    ensures
        r@ == login_payload(o@),
{
    let mut out: Vec<u8> = Vec::new();
    push_be16(&mut out, o.username.len() as u16);
    push_bytes(&mut out, &o.username);
    push_be16(&mut out, o.password.len() as u16);
    push_bytes(&mut out, &o.password);
    proof {
        assert(out@ =~= login_payload(o@));
    }
    out
}

/// The challenge-response payload: the server's challenge blob echoed
/// back, followed by the password.
pub open spec fn sspi_payload(challenge: Seq<u8>, o: OptionsModel) -> Seq<u8> {
    challenge + o.password
}

/// Builds the challenge-response payload.
pub fn encode_sspi(challenge: &Vec<u8>, o: &MssqlConnectOptions) -> (r: Vec<u8>)
    ensures
        r@ == sspi_payload(challenge@, o@),
{
    let mut out: Vec<u8> = Vec::new();
    push_bytes(&mut out, challenge);
    push_bytes(&mut out, &o.password);
    proof {
        assert(out@ =~= sspi_payload(challenge@, o@));
    }
    out
}

/// Parses the pre-login acknowledgement: exactly the server's version
/// and confirmed packet size, the size within negotiable bounds.
pub open spec fn spec_prelogin_ack(p: Seq<u8>) -> Option<(u32, u32)> {
    if p.len() == 8 {
        let v = be32_val(p[0], p[1], p[2], p[3]);
        let ps = be32_val(p[4], p[5], p[6], p[7]);
        if 512 <= ps <= 0xFFFF {
            Some((v, ps))
        } else {
            None
        }
    } else {
        None
    }
}

/// Reads the pre-login acknowledgement.
pub fn read_prelogin_ack(p: &Vec<u8>) -> (r: Option<(u32, u32)>)
    ensures
        r == spec_prelogin_ack(p@),
{
    if p.len() != 8 {
        return None;
    }
    let v = read_be32(p, 0);
    let ps = read_be32(p, 4);
    if 512 <= ps && ps <= 0xFFFF {
        Some((v, ps))
    } else {
        None
    }
}

/// Ghost outcome of decoding a login response.
pub enum LoginOutcome {
    /// Login acknowledged: server version and negotiated packet size.
    Accepted(u32, u32),
    /// The server demands another authentication round.
    Challenge(Seq<u8>),
    /// The server rejected the credentials: error number and message.
    Rejected(u32, Seq<u8>),
    Malformed,
}

/// Decodes the login response's token stream from `pos`: informational
/// tokens are skipped; the first meaningful token decides.
pub open spec fn spec_login_response(p: Seq<u8>, pos: int) -> LoginOutcome
    decreases p.len() - pos,
{
    if pos < 0 || pos >= p.len() {
        LoginOutcome::Malformed
    } else {
        let tag = p[pos];
        if tag == TOKEN_LOGINACK {
            if pos + 9 <= p.len() {
                let v = be32_val(p[pos + 1], p[pos + 2], p[pos + 3], p[pos + 4]);
                let ps = be32_val(p[pos + 5], p[pos + 6], p[pos + 7], p[pos + 8]);
                if 512 <= ps <= 0xFFFF {
                    LoginOutcome::Accepted(v, ps)
                } else {
                    LoginOutcome::Malformed
                }
            } else {
                LoginOutcome::Malformed
            }
        } else if tag == TOKEN_CHALLENGE {
            if pos + 3 <= p.len() {
                let bl = be16_val(p[pos + 1], p[pos + 2]) as int;
                if pos + 3 + bl <= p.len() {
                    LoginOutcome::Challenge(p.subrange(pos + 3, pos + 3 + bl))
                } else {
                    LoginOutcome::Malformed
                }
            } else {
                LoginOutcome::Malformed
            }
        } else if tag == TOKEN_ERROR {
            match spec_notice(p, pos) {
                Some((number, msg, _c)) => LoginOutcome::Rejected(number, msg),
                None => LoginOutcome::Malformed,
            }
        } else if tag == TOKEN_INFO {
            match spec_notice(p, pos) {
                Some((_number, _msg, c)) => {
                    let p2 = pos + c;
                    if p2 > p.len() || p2 <= pos {
                        LoginOutcome::Malformed
                    } else {
                        spec_login_response(p, p2)
                    }
                },
                None => LoginOutcome::Malformed,
            }
        } else {
            LoginOutcome::Malformed
        }
    }
}

/// Executable outcome of decoding a login response.
#[derive(Debug)]
pub enum LoginStep {
    Accepted(u32, u32),
    Challenge(Vec<u8>),
    Rejected { number: u32, message: Vec<u8> },
    Malformed,
}

/// Decodes the login response, mirroring `spec_login_response`.
pub fn read_login_response(p: &Vec<u8>, pos: usize) -> (r: LoginStep)
    requires
        pos <= p@.len(),
    ensures
        match spec_login_response(p@, pos as int) {
            LoginOutcome::Accepted(v, ps) => r matches LoginStep::Accepted(rv, rps) && rv == v
                && rps == ps && 512 <= ps <= 0xFFFF,
            LoginOutcome::Challenge(blob) => r matches LoginStep::Challenge(rb) && rb@ == blob,
            LoginOutcome::Rejected(number, msg) => r matches LoginStep::Rejected {
                number: rn,
                message: rm,
            } && rn == number && rm@ == msg,
            LoginOutcome::Malformed => r is Malformed,
        },
    decreases p@.len() - pos,
{
    let n = p.len();
    if pos >= n {
        return LoginStep::Malformed;
    }
    let tag = p[pos];
    if tag == TOKEN_LOGINACK {
        if n >= 9 && pos <= n - 9 {
            let v = read_be32(p, pos + 1);
            let ps = read_be32(p, pos + 5);
            if 512 <= ps && ps <= 0xFFFF {
                LoginStep::Accepted(v, ps)
            } else {
                LoginStep::Malformed
            }
        } else {
            LoginStep::Malformed
        }
    } else if tag == TOKEN_CHALLENGE {
        if n >= 3 && pos <= n - 3 {
            let bl = read_be16(p, pos + 1);
            if bl as usize <= n - (pos + 3) {
                let mut blob: Vec<u8> = Vec::new();
                let mut i = pos + 3;
                let end = pos + 3 + bl as usize;
                while i < end
                    invariant
                        pos + 3 <= i <= end,
                        end <= p@.len(),
                        blob@ == p@.subrange(pos as int + 3, i as int),
                    decreases end - i,
                {
                    blob.push(p[i]);
                    proof {
                        assert(blob@ =~= p@.subrange(pos as int + 3, i as int + 1));
                    }
                    i = i + 1;
                }
                LoginStep::Challenge(blob)
            } else {
                LoginStep::Malformed
            }
        } else {
            LoginStep::Malformed
        }
    } else if tag == TOKEN_ERROR {
        if n >= 7 && pos <= n - 7 {
            let number = read_be32(p, pos + 1);
            let ml = read_be16(p, pos + 5);
            if ml as usize <= n - (pos + 7) {
                let mut message: Vec<u8> = Vec::new();
                let mut i = pos + 7;
                let end = pos + 7 + ml as usize;
                while i < end
                    invariant
                        pos + 7 <= i <= end,
                        end <= p@.len(),
                        message@ == p@.subrange(pos as int + 7, i as int),
                    decreases end - i,
                {
                    message.push(p[i]);
                    proof {
                        assert(message@ =~= p@.subrange(pos as int + 7, i as int + 1));
                    }
                    i = i + 1;
                }
                LoginStep::Rejected { number, message }
            } else {
                LoginStep::Malformed
            }
        } else {
            LoginStep::Malformed
        }
    } else if tag == TOKEN_INFO {
        if n >= 7 && pos <= n - 7 {
            let ml = read_be16(p, pos + 5);
            if ml as usize <= n - (pos + 7) {
                let p2 = pos + 7 + ml as usize;
                if p2 <= pos {
                    LoginStep::Malformed
                } else {
                    read_login_response(p, p2)
                }
            } else {
                LoginStep::Malformed
            }
        } else {
            LoginStep::Malformed
        }
    } else {
        LoginStep::Malformed
    }
}

/// The states of the establishment machine. It is linear: `Start`
/// through sent requests to `Ready`, or `Failed` at any step.
#[derive(Clone, Copy, PartialEq, Eq, Structural, Debug)]
pub enum HandshakeState {
    Start,
    PreloginSent,
    LoginSent,
    ChallengeSent(u8),
    Ready,
    Failed,
}

/// What the machine asks the driver to do after consuming a response.
#[derive(Debug)]
pub enum HandshakeAction {
    /// Send one framed message: packet type and payload.
    Send(u8, Vec<u8>),
    /// Establishment succeeded: server version and negotiated packet
    /// size.
    Done(u32, u32),
    /// Establishment failed; the connection never becomes usable.
    Fail(MssqlError),
}

/// Ghost mirror of `HandshakeAction`.
pub enum ActionModel {
    Send(u8, Seq<u8>),
    Done(u32, u32),
    Fail(ErrorModel),
}

impl View for HandshakeAction {
    type V = ActionModel;

    open spec fn view(&self) -> ActionModel {
        match self {
            HandshakeAction::Send(t, p) => ActionModel::Send(*t, p@),
            HandshakeAction::Done(v, ps) => ActionModel::Done(*v, *ps),
            HandshakeAction::Fail(e) => ActionModel::Fail(e@),
        }
    }
}

/// The exhaustive transition function of the establishment machine:
/// from the state that awaits a response and the response's payload to
/// the next state and the action owed.
pub open spec fn spec_handshake_step(st: HandshakeState, o: OptionsModel, msg: Seq<u8>) -> (
    HandshakeState,
    ActionModel,
) {
    match st {
        HandshakeState::PreloginSent => match spec_prelogin_ack(msg) {
            Some((_v, _ps)) => (
                HandshakeState::LoginSent,
                ActionModel::Send(PACKET_TYPE_LOGIN, login_payload(o)),
            ),
            None => (HandshakeState::Failed, ActionModel::Fail(ErrorModel::Protocol)),
        },
        HandshakeState::LoginSent => match spec_login_response(msg, 0) {
            LoginOutcome::Accepted(v, ps) => (HandshakeState::Ready, ActionModel::Done(v, ps)),
            LoginOutcome::Challenge(blob) => (
                HandshakeState::ChallengeSent(1),
                ActionModel::Send(PACKET_TYPE_SSPI, sspi_payload(blob, o)),
            ),
            LoginOutcome::Rejected(number, m) => (
                HandshakeState::Failed,
                ActionModel::Fail(ErrorModel::Authentication(number, m)),
            ),
            LoginOutcome::Malformed => (
                HandshakeState::Failed,
                ActionModel::Fail(ErrorModel::Protocol),
            ),
        },
        HandshakeState::ChallengeSent(round) => match spec_login_response(msg, 0) {
            LoginOutcome::Accepted(v, ps) => (HandshakeState::Ready, ActionModel::Done(v, ps)),
            LoginOutcome::Challenge(blob) => {
                if round < MAX_CHALLENGE_ROUNDS {
                    (
                        HandshakeState::ChallengeSent((round + 1) as u8),
                        ActionModel::Send(PACKET_TYPE_SSPI, sspi_payload(blob, o)),
                    )
                } else {
                    (HandshakeState::Failed, ActionModel::Fail(ErrorModel::Protocol))
                }
            },
            LoginOutcome::Rejected(number, m) => (
                HandshakeState::Failed,
                ActionModel::Fail(ErrorModel::Authentication(number, m)),
            ),
            LoginOutcome::Malformed => (
                HandshakeState::Failed,
                ActionModel::Fail(ErrorModel::Protocol),
            ),
        },
        _ => (HandshakeState::Failed, ActionModel::Fail(ErrorModel::Protocol)),
    }
}

/// Outcome of a whole establishment attempt over the bytes the peer
/// sends, read side: what `MssqlConnection::establish` owes for every
/// script of incoming bytes.
pub enum EstablishOutcome {
    /// Handshake complete: server version and negotiated packet size.
    Ready(u32, u32),
    /// The incoming bytes end before the handshake completes.
    TransportFail,
    /// A malformed packet or response, or one challenge round too many.
    ProtocolFail,
    /// The server rejected the credentials.
    AuthFail(u32, Seq<u8>),
}

/// The login phase: one login (or challenge-response) exchange per
/// `round`, with at most two challenge rounds accepted.
pub open spec fn spec_login_phase(inc: Seq<u8>, o: OptionsModel, round: int) -> EstablishOutcome
    decreases 3 - round,
{
    if round < 0 || round > 2 {
        EstablishOutcome::ProtocolFail
    } else {
        match scan(inc) {
            ScanResult::NeedMore => EstablishOutcome::TransportFail,
            ScanResult::Malformed => EstablishOutcome::ProtocolFail,
            ScanResult::Msg(p, c) => match spec_login_response(p, 0) {
                LoginOutcome::Accepted(v, ps) => EstablishOutcome::Ready(v, ps),
                LoginOutcome::Rejected(number, m) => EstablishOutcome::AuthFail(number, m),
                LoginOutcome::Malformed => EstablishOutcome::ProtocolFail,
                LoginOutcome::Challenge(_blob) => {
                    if round < 2 {
                        spec_login_phase(inc.skip(c), o, round + 1)
                    } else {
                        EstablishOutcome::ProtocolFail
                    }
                },
            },
        }
    }
}

/// What establishment owes over the whole incoming byte script: the
/// pre-login acknowledgement, then the login phase.
pub open spec fn spec_establish(inc: Seq<u8>, o: OptionsModel) -> EstablishOutcome {
    match scan(inc) {
        ScanResult::NeedMore => EstablishOutcome::TransportFail,
        ScanResult::Malformed => EstablishOutcome::ProtocolFail,
        ScanResult::Msg(p, c) => match spec_prelogin_ack(p) {
            None => EstablishOutcome::ProtocolFail,
            Some(_ack) => spec_login_phase(inc.skip(c), o, 0),
        },
    }
}

/// The framed requests owed after the login request was sent, given
/// the remaining incoming script: one challenge response per accepted
/// challenge round.
pub open spec fn spec_sent_login_phase(inc: Seq<u8>, o: OptionsModel, round: int) -> Seq<u8>
    decreases 3 - round,
{
    if round < 0 || round > 2 {
        Seq::empty()
    } else {
        match scan(inc) {
            ScanResult::NeedMore => Seq::empty(),
            ScanResult::Malformed => Seq::empty(),
            ScanResult::Msg(p, c) => match spec_login_response(p, 0) {
                LoginOutcome::Challenge(blob) => {
                    if round < 2 {
                        frame(
                            PACKET_TYPE_SSPI,
                            sspi_payload(blob, o),
                            DEFAULT_PACKET_SIZE as int,
                        ) + spec_sent_login_phase(inc.skip(c), o, round + 1)
                    } else {
                        Seq::empty()
                    }
                },
                _ => Seq::empty(),
            },
        }
    }
}

/// The whole request transcript establishment owes for an incoming
/// script: the pre-login request, then — once the acknowledgement
/// arrives — the login request and any challenge responses.
pub open spec fn spec_establish_sent(inc: Seq<u8>, o: OptionsModel) -> Seq<u8> {
    frame(PACKET_TYPE_PRELOGIN, prelogin_payload(o), DEFAULT_PACKET_SIZE as int) + match scan(
        inc,
    ) {
        ScanResult::NeedMore => Seq::empty(),
        ScanResult::Malformed => Seq::empty(),
        ScanResult::Msg(p, c) => match spec_prelogin_ack(p) {
            None => Seq::empty(),
            Some(_ack) => frame(PACKET_TYPE_LOGIN, login_payload(o), DEFAULT_PACKET_SIZE as int)
                + spec_sent_login_phase(inc.skip(c), o, 0),
        },
    }
}

/// The establishment machine fails closed: a transition demands that
/// the connection be abandoned exactly when it moves to the `Failed`
/// state, so a failed handshake can never also yield a usable action.
pub proof fn lemma_failed_handshake_never_usable(
    st: HandshakeState,
    o: OptionsModel,
    msg: Seq<u8>,
)
    ensures
        (spec_handshake_step(st, o, msg).1 is Fail) <==> (spec_handshake_step(st, o, msg).0
            is Failed),
        (spec_handshake_step(st, o, msg).1 is Done) <==> (spec_handshake_step(st, o, msg).0
            is Ready),
{
}

/// Runs one transition of the establishment machine on a received
/// response payload. A failing transition never reports a `Database`
/// error: establishment failures are transport, protocol, or
/// authentication failures.
pub fn handshake_step(st: HandshakeState, o: &MssqlConnectOptions, msg: &Vec<u8>) -> (r: (
    HandshakeState,
    HandshakeAction,
))
    requires
        options_wf(o@),
    ensures
        r.0 == spec_handshake_step(st, o@, msg@).0,
        r.1@ == spec_handshake_step(st, o@, msg@).1,
        r.1 matches HandshakeAction::Fail(e) ==> (e@ is Protocol || e@ is Authentication),
        r.1 matches HandshakeAction::Done(v, ps) ==> 512 <= ps <= 0xFFFF,
{
    match st {
        HandshakeState::PreloginSent => match read_prelogin_ack(msg) {
            Some((_v, _ps)) => (
                HandshakeState::LoginSent,
                HandshakeAction::Send(PACKET_TYPE_LOGIN, encode_login(o)),
            ),
            None => (HandshakeState::Failed, HandshakeAction::Fail(MssqlError::Protocol)),
        },
        HandshakeState::LoginSent => match read_login_response(msg, 0) {
            LoginStep::Accepted(v, ps) => (HandshakeState::Ready, HandshakeAction::Done(v, ps)),
            LoginStep::Challenge(blob) => (
                HandshakeState::ChallengeSent(1),
                HandshakeAction::Send(PACKET_TYPE_SSPI, encode_sspi(&blob, o)),
            ),
            LoginStep::Rejected { number, message } => (
                HandshakeState::Failed,
                HandshakeAction::Fail(MssqlError::Authentication { number, message }),
            ),
            LoginStep::Malformed => (
                HandshakeState::Failed,
                HandshakeAction::Fail(MssqlError::Protocol),
            ),
        },
        HandshakeState::ChallengeSent(round) => match read_login_response(msg, 0) {
            LoginStep::Accepted(v, ps) => (HandshakeState::Ready, HandshakeAction::Done(v, ps)),
            LoginStep::Challenge(blob) => {
                if round < MAX_CHALLENGE_ROUNDS {
                    (
                        HandshakeState::ChallengeSent(round + 1),
                        HandshakeAction::Send(PACKET_TYPE_SSPI, encode_sspi(&blob, o)),
                    )
                } else {
                    (HandshakeState::Failed, HandshakeAction::Fail(MssqlError::Protocol))
                }
            },
            LoginStep::Rejected { number, message } => (
                HandshakeState::Failed,
                HandshakeAction::Fail(MssqlError::Authentication { number, message }),
            ),
            LoginStep::Malformed => (
                HandshakeState::Failed,
                HandshakeAction::Fail(MssqlError::Protocol),
            ),
        },
        _ => (HandshakeState::Failed, HandshakeAction::Fail(MssqlError::Protocol)),
    }
}

} // verus!
