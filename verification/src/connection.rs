//! The connection: sole owner of one packet stream, composed of
//! establishment, command execution and the lifecycle contract. A
//! connection is `Ready` (idle), `PendingResponse` (a request sent, its
//! response not yet consumed) or `Failed` (a fatal error happened; every
//! operation fails fast from then on).

use vstd::prelude::*;
use crate::error::MssqlError;
use crate::packet::{
    frame, scan, ScanResult, PACKET_TYPE_SQL_BATCH, PACKET_TYPE_PRELOGIN,
};
use crate::transport::MemoryTransport;
use crate::stream::MssqlStream;
use crate::token::{ColKind, QueryResult};
use crate::decode::{decode_response, spec_decode_response, DecodeOutcome};
use crate::executor::{Command, CommandModel, command_wf, command_payload, encode_command};
use crate::establish::{
    MssqlConnectOptions, options_wf, encode_prelogin, handshake_step, HandshakeState,
    HandshakeAction, DEFAULT_PACKET_SIZE, EstablishOutcome, spec_establish, spec_login_phase,
    spec_prelogin_ack, spec_login_response, LoginOutcome, spec_establish_sent,
    spec_sent_login_phase,
};
use crate::error::ErrorModel;

verus! {

/// Lifecycle states of a connection.
#[derive(Clone, Copy, PartialEq, Eq, Structural, Debug)]
pub enum ConnectionState {
    /// Idle: a request may be issued.
    Ready,
    /// A request was sent and its response has not been consumed; no
    /// new exchange may start until it is drained.
    PendingResponse,
    /// A fatal error happened; the connection must be discarded and
    /// every operation fails deterministically.
    Failed,
}

/// The text of the ping command: the comment-only batch
/// `/* SQLx ping */`. A comment batch is used instead of a data query
/// so that the liveness probe cannot interact with any ongoing
/// transaction or locking state.
pub open spec fn ping_text() -> Seq<u8> {
    seq![47u8, 42u8, 32u8, 83u8, 81u8, 76u8, 120u8, 32u8, 112u8, 105u8, 110u8, 103u8, 32u8, 42u8,
        47u8]
}

/// The model of the ping command: the comment-only no-op batch.
pub open spec fn ping_command() -> CommandModel {
    CommandModel { text: ping_text(), params: Seq::empty() }
}

fn make_ping_text() -> (r: Vec<u8>)
    ensures
        r@ == ping_text(),
{
    let mut v: Vec<u8> = Vec::new();
    v.push(47);
    v.push(42);
    v.push(32);
    v.push(83);
    v.push(81);
    v.push(76);
    v.push(120);
    v.push(32);
    v.push(112);
    v.push(105);
    v.push(110);
    v.push(103);
    v.push(32);
    v.push(42);
    v.push(47);
    proof {
        assert(v@ =~= ping_text());
    }
    v
}

/// The text of the begin-transaction command.
pub open spec fn begin_text() -> Seq<u8> {
    seq![66u8, 69u8, 71u8, 73u8, 78u8, 32u8, 84u8, 82u8, 65u8, 78u8, 83u8, 65u8, 67u8, 84u8, 73u8,
        79u8, 78u8]
}

/// The model of the begin-transaction command.
pub open spec fn begin_command() -> CommandModel {
    CommandModel { text: begin_text(), params: Seq::empty() }
}

/// The text of the commit-transaction command.
pub open spec fn commit_text() -> Seq<u8> {
    seq![67u8, 79u8, 77u8, 77u8, 73u8, 84u8, 32u8, 84u8, 82u8, 65u8, 78u8, 83u8, 65u8, 67u8, 84u8,
        73u8, 79u8, 78u8]
}

/// The model of the commit-transaction command.
pub open spec fn commit_command() -> CommandModel {
    CommandModel { text: commit_text(), params: Seq::empty() }
}

/// The text of the rollback-transaction command.
pub open spec fn rollback_text() -> Seq<u8> {
    seq![82u8, 79u8, 76u8, 76u8, 66u8, 65u8, 67u8, 75u8, 32u8, 84u8, 82u8, 65u8, 78u8, 83u8, 65u8,
        67u8, 84u8, 73u8, 79u8, 78u8]
}

/// The model of the rollback-transaction command.
pub open spec fn rollback_command() -> CommandModel {
    CommandModel { text: rollback_text(), params: Seq::empty() }
}

fn make_commit_text() -> (r: Vec<u8>)
    ensures
        r@ == commit_text(),
{
    let mut v: Vec<u8> = Vec::new();
    v.push(67);
    v.push(79);
    v.push(77);
    v.push(77);
    v.push(73);
    v.push(84);
    v.push(32);
    v.push(84);
    v.push(82);
    v.push(65);
    v.push(78);
    v.push(83);
    v.push(65);
    v.push(67);
    v.push(84);
    v.push(73);
    v.push(79);
    v.push(78);
    proof {
        assert(v@ =~= commit_text());
    }
    v
}

fn make_rollback_text() -> (r: Vec<u8>)
    ensures
        r@ == rollback_text(),
{
    let mut v: Vec<u8> = Vec::new();
    v.push(82);
    v.push(79);
    v.push(76);
    v.push(76);
    v.push(66);
    v.push(65);
    v.push(67);
    v.push(75);
    v.push(32);
    v.push(84);
    v.push(82);
    v.push(65);
    v.push(78);
    v.push(83);
    v.push(65);
    v.push(67);
    v.push(84);
    v.push(73);
    v.push(79);
    v.push(78);
    proof {
        assert(v@ =~= rollback_text());
    }
    v
}

fn make_begin_text() -> (r: Vec<u8>)
    ensures
        r@ == begin_text(),
{
    let mut v: Vec<u8> = Vec::new();
    v.push(66);
    v.push(69);
    v.push(71);
    v.push(73);
    v.push(78);
    v.push(32);
    v.push(84);
    v.push(82);
    v.push(65);
    v.push(78);
    v.push(83);
    v.push(65);
    v.push(67);
    v.push(84);
    v.push(73);
    v.push(79);
    v.push(78);
    proof {
        assert(v@ =~= begin_text());
    }
    v
}

/// Whether `r` is the result `spec_establish` owes for outcome `sp`.
pub open spec fn establish_result_matches(
    sp: EstablishOutcome,
    r: Result<MssqlConnection, MssqlError>,
) -> bool {
    match sp {
        EstablishOutcome::Ready(_v, ps) => r matches Ok(c) && c.stream.packet_size as int
            == ps as int,
        EstablishOutcome::TransportFail => r matches Err(MssqlError::Transport),
        EstablishOutcome::ProtocolFail => r matches Err(MssqlError::Protocol),
        EstablishOutcome::AuthFail(number, m) => r matches Err(MssqlError::Authentication {
            number: rn,
            message: rm,
        }) && rn == number && rm@ == m,
    }
}

/// One connection to the server, over one transport.
#[derive(Debug)]
pub struct MssqlConnection {
    pub stream: MssqlStream,
    pub state: ConnectionState,
    /// Whether a transaction opened by `begin` is still open.
    pub transaction_open: bool,
}

impl MssqlConnection {
    pub open spec fn wf(self) -> bool {
        self.stream.wf()
    }

    /// The received bytes the engine has not consumed yet.
    pub open spec fn unread(self) -> Seq<u8> {
        self.stream.transport.unread()
    }

    /// Establishes a new connection over `transport`: runs the whole
    /// handshake. On any failure no connection is returned, so a
    /// connection that failed its handshake can never be used; no
    /// establishment failure is a `Database` error; and on an open
    /// transport the outcome is exactly what `spec_establish` says of
    /// the bytes the peer sent.
    pub fn establish(transport: MemoryTransport, options: &MssqlConnectOptions) -> (r: Result<
        MssqlConnection,
        MssqlError,
    >)
        requires
            transport.wf(),
            options_wf(options@),
        ensures
            r matches Ok(c) ==> (c.wf() && c.state is Ready && !c.transaction_open
                && !c.stream.pending_write()),
            r matches Err(e) ==> !(e@ is Database),
            !transport.open ==> r matches Err(MssqlError::Transport),
            transport.open ==> establish_result_matches(
                spec_establish(transport.unread(), options@),
                r,
            ),
            r matches Ok(c) ==> c.stream.transport.outgoing@ == transport.outgoing@
                + spec_establish_sent(transport.unread(), options@),
    {
        let ghost inc0 = transport.unread();
        let mut stream = MssqlStream::new(transport, DEFAULT_PACKET_SIZE);
        let prelogin = encode_prelogin(options);
        stream.write_message(PACKET_TYPE_PRELOGIN, &prelogin);
        match stream.flush() {
            Err(e) => {
                return Err(e);
            },
            Ok(()) => {},
        }
        let mut st = HandshakeState::PreloginSent;
        let mut i: u8 = 0;
        while i < 4
            invariant
                stream.wf(),
                !stream.pending_write(),
                options_wf(options@),
                stream.transport.open,
                transport.open,
                inc0 == transport.unread(),
                stream.packet_size == DEFAULT_PACKET_SIZE,
                match st {
                    HandshakeState::PreloginSent => i == 0 && stream.transport.unread() == inc0
                        && stream.transport.outgoing@ == transport.outgoing@ + frame(
                        PACKET_TYPE_PRELOGIN,
                        crate::establish::prelogin_payload(options@),
                        DEFAULT_PACKET_SIZE as int,
                    ),
                    HandshakeState::LoginSent => i <= 1 && spec_establish(inc0, options@)
                        == spec_login_phase(stream.transport.unread(), options@, 0)
                        && transport.outgoing@ + spec_establish_sent(inc0, options@)
                        == stream.transport.outgoing@ + spec_sent_login_phase(
                        stream.transport.unread(),
                        options@,
                        0,
                    ),
                    HandshakeState::ChallengeSent(n) => 1 <= n <= 2 && i <= n + 1
                        && spec_establish(inc0, options@) == spec_login_phase(
                        stream.transport.unread(),
                        options@,
                        n as int,
                    ) && transport.outgoing@ + spec_establish_sent(inc0, options@)
                        == stream.transport.outgoing@ + spec_sent_login_phase(
                        stream.transport.unread(),
                        options@,
                        n as int,
                    ),
                    _ => false,
                },
            decreases 4 - i,
        {
            let ghost cur = stream.transport.unread();
            let ghost sp = spec_establish(inc0, options@);
            // The challenge round the next response belongs to; the
            // pre-login state has no round.
            let ghost round: int = match st {
                HandshakeState::PreloginSent => -1,
                HandshakeState::LoginSent => 0,
                HandshakeState::ChallengeSent(n) => n as int,
                _ => 3,
            };
            proof {
                if st is PreloginSent {
                    assert(sp == spec_establish(cur, options@));
                } else {
                    assert(0 <= round <= 2);
                    assert(sp == spec_login_phase(cur, options@, round));
                }
            }
            let msg = match stream.read_message() {
                Ok(m) => m,
                Err(e) => {
                    proof {
                        match scan(cur) {
                            ScanResult::NeedMore => {
                                assert(sp == EstablishOutcome::TransportFail);
                                assert(e == MssqlError::Transport);
                            },
                            ScanResult::Malformed => {
                                assert(sp == EstablishOutcome::ProtocolFail);
                                assert(e == MssqlError::Protocol);
                            },
                            ScanResult::Msg(_p, _c) => {
                                assert(false);
                            },
                        }
                        assert(establish_result_matches(sp, Err(e)));
                    }
                    return Err(e);
                },
            };
            let ghost prev = st;
            let (st2, action) = handshake_step(st, options, &msg);
            st = st2;
            match action {
                HandshakeAction::Fail(e) => {
                    proof {
                        match scan(cur) {
                            ScanResult::Msg(p, _c) => {
                                assert(p == msg@);
                                if prev is PreloginSent {
                                    assert(spec_prelogin_ack(msg@) is None);
                                    assert(sp == EstablishOutcome::ProtocolFail);
                                    assert(e@ is Protocol);
                                } else {
                                    match spec_login_response(msg@, 0) {
                                        LoginOutcome::Rejected(nn, mm) => {
                                            assert(sp == EstablishOutcome::AuthFail(nn, mm));
                                            assert(e@ == ErrorModel::Authentication(nn, mm));
                                        },
                                        LoginOutcome::Malformed => {
                                            assert(sp == EstablishOutcome::ProtocolFail);
                                            assert(e@ is Protocol);
                                        },
                                        LoginOutcome::Challenge(_b) => {
                                            assert(round == 2);
                                            assert(sp == EstablishOutcome::ProtocolFail);
                                            assert(e@ is Protocol);
                                        },
                                        LoginOutcome::Accepted(_v, _ps) => {
                                            assert(false);
                                        },
                                    }
                                }
                            },
                            _ => {
                                assert(false);
                            },
                        }
                        assert(establish_result_matches(sp, Err(e)));
                    }
                    return Err(e);
                },
                HandshakeAction::Done(_version, ps) => {
                    proof {
                        match scan(cur) {
                            ScanResult::Msg(p, _c) => {
                                assert(p == msg@);
                                if prev is PreloginSent {
                                    assert(false);
                                }
                                assert(spec_sent_login_phase(cur, options@, round)
                                    =~= Seq::<u8>::empty());
                                assert(stream.transport.outgoing@ + Seq::<u8>::empty()
                                    =~= stream.transport.outgoing@);
                                assert(stream.transport.outgoing@ == transport.outgoing@
                                    + spec_establish_sent(inc0, options@));
                            },
                            _ => {
                                assert(false);
                            },
                        }
                    }
                    stream.packet_size = ps as usize;
                    return Ok(
                        MssqlConnection {
                            stream,
                            state: ConnectionState::Ready,
                            transaction_open: false,
                        },
                    );
                },
                HandshakeAction::Send(ptype, payload) => {
                    stream.write_message(ptype, &payload);
                    match stream.flush() {
                        Err(e) => {
                            // Unreachable: the transport is open here,
                            // so a flush cannot fail.
                            proof {
                                assert(false);
                            }
                            return Err(e);
                        },
                        Ok(()) => {},
                    }
                    proof {
                        match scan(cur) {
                            ScanResult::Msg(p, _c) => {
                                assert(p == msg@);
                                if prev is PreloginSent {
                                    assert(transport.outgoing@ + spec_establish_sent(
                                        inc0,
                                        options@,
                                    ) =~= stream.transport.outgoing@ + spec_sent_login_phase(
                                        stream.transport.unread(),
                                        options@,
                                        0,
                                    ));
                                } else {
                                    assert(transport.outgoing@ + spec_establish_sent(
                                        inc0,
                                        options@,
                                    ) =~= stream.transport.outgoing@ + spec_sent_login_phase(
                                        stream.transport.unread(),
                                        options@,
                                        round + 1,
                                    ));
                                }
                            },
                            _ => {
                                assert(false);
                            },
                        }
                    }
                },
            }
            i = i + 1;
        }
        // Unreachable: the machine settles within at most four
        // responses, as the loop invariant shows.
        proof {
            assert(false);
        }
        Err(MssqlError::Protocol)
    }

    /// Pure, non-suspending check: are staged writes awaiting a flush?
    pub fn should_flush(&self) -> (r: bool)
        ensures
            r == self.stream.pending_write(),
    {
        self.stream.should_flush()
    }

    /// Makes newly received bytes visible to the engine (the driver's
    /// receive half).
    pub fn feed(&mut self, bytes: &Vec<u8>)
        requires
            old(self).wf(),
        ensures
            final(self).wf(),
            final(self).unread() == old(self).unread() + bytes@,
            final(self).state == old(self).state,
            final(self).transaction_open == old(self).transaction_open,
            final(self).stream.wbuf == old(self).stream.wbuf,
            final(self).stream.packet_size == old(self).stream.packet_size,
            final(self).stream.transport.outgoing == old(self).stream.transport.outgoing,
            final(self).stream.transport.open == old(self).stream.transport.open,
    {
        self.stream.transport.feed(bytes);
    }

    /// Removes and returns everything flushed to the transport (the
    /// driver's send half).
    pub fn take_outgoing(&mut self) -> (r: Vec<u8>)
        requires
            old(self).wf(),
        ensures
            final(self).wf(),
            r@ == old(self).stream.transport.outgoing@,
            final(self).stream.transport.outgoing@ == Seq::<u8>::empty(),
            final(self).state == old(self).state,
            final(self).transaction_open == old(self).transaction_open,
            final(self).stream.wbuf == old(self).stream.wbuf,
            final(self).stream.packet_size == old(self).stream.packet_size,
            final(self).unread() == old(self).unread(),
            final(self).stream.transport.open == old(self).stream.transport.open,
    {
        self.stream.transport.take_outgoing()
    }

    /// Closes the connection: a raw transport shutdown, since the
    /// protocol has no close handshake. Always succeeds at the protocol
    /// level.
    pub fn close(self) -> (r: Result<(), MssqlError>)
        requires
            self.wf(),
        ensures
            r is Ok,
    {
        let mut transport = self.stream.transport;
        transport.shutdown();
        Ok(())
    }

    /// Stages and flushes one request message carrying `payload`. On
    /// success the connection is mid-exchange; a write failure is fatal.
    fn start_request(&mut self, payload: &Vec<u8>) -> (r: Result<(), MssqlError>)
        requires
            old(self).wf(),
        ensures
            final(self).wf(),
            final(self).transaction_open == old(self).transaction_open,
            final(self).stream.packet_size == old(self).stream.packet_size,
            final(self).unread() == old(self).unread(),
            final(self).stream.transport.open == old(self).stream.transport.open,
            !(old(self).state is Ready) ==> (r matches Err(MssqlError::Protocol) && *final(self)
                == *old(self)),
            (old(self).state is Ready && !old(self).stream.transport.open) ==> (r matches Err(
                MssqlError::Transport,
            ) && final(self).state is Failed && final(self).stream.transport.outgoing == old(self).stream.transport.outgoing),
            (old(self).state is Ready && old(self).stream.transport.open) ==> (r is Ok && final(self).state is PendingResponse && !final(self).stream.pending_write() && final(self).stream.transport.outgoing@ == old(self).stream.transport.outgoing@ + old(self).stream.wbuf@ + frame(
                PACKET_TYPE_SQL_BATCH,
                payload@,
                old(self).stream.packet_size as int,
            )),
    {
        match self.state {
            ConnectionState::Ready => {},
            _ => {
                return Err(MssqlError::Protocol);
            },
        }
        self.stream.write_message(PACKET_TYPE_SQL_BATCH, payload);
        match self.stream.flush() {
            Err(e) => {
                self.state = ConnectionState::Failed;
                Err(e)
            },
            Ok(()) => {
                self.state = ConnectionState::PendingResponse;
                Ok(())
            },
        }
    }

    /// Encodes `cmd` and sends it as a request, leaving the connection
    /// mid-exchange. Fails fast, writing nothing, unless the connection
    /// is idle: a pending response must be drained first, and a failed
    /// connection stays failed.
    pub fn start_execute(&mut self, cmd: &Command) -> (r: Result<(), MssqlError>)
        requires
            old(self).wf(),
            command_wf(cmd@),
        ensures
            final(self).wf(),
            final(self).transaction_open == old(self).transaction_open,
            final(self).stream.packet_size == old(self).stream.packet_size,
            final(self).stream.transport.open == old(self).stream.transport.open,
            final(self).unread() == old(self).unread(),
            !(old(self).state is Ready) ==> (r matches Err(MssqlError::Protocol) && *final(self)
                == *old(self)),
            (old(self).state is Ready && !old(self).stream.transport.open) ==> (r matches Err(
                MssqlError::Transport,
            ) && final(self).state is Failed && final(self).stream.transport.outgoing == old(self).stream.transport.outgoing),
            (old(self).state is Ready && old(self).stream.transport.open) ==> (r is Ok && final(self).state is PendingResponse && !final(self).stream.pending_write() && final(self).stream.transport.outgoing@ == old(self).stream.transport.outgoing@ + old(self).stream.wbuf@ + frame(
                PACKET_TYPE_SQL_BATCH,
                encode_command(cmd@, false),
                old(self).stream.packet_size as int,
            )),
    {
        let payload = command_payload(cmd, false);
        self.start_request(&payload)
    }

    /// Reads and decodes the pending response. A server-reported
    /// failure leaves the connection usable; a transport or protocol
    /// failure is fatal.
    pub fn fetch_result(&mut self) -> (r: Result<QueryResult, MssqlError>)
        requires
            old(self).wf(),
        ensures
            final(self).wf(),
            final(self).transaction_open == old(self).transaction_open,
            final(self).stream.packet_size == old(self).stream.packet_size,
            final(self).stream.wbuf == old(self).stream.wbuf,
            final(self).stream.transport.outgoing == old(self).stream.transport.outgoing,
            final(self).stream.transport.open == old(self).stream.transport.open,
            !(old(self).state is PendingResponse) ==> (r matches Err(MssqlError::Protocol)
                && *final(self) == *old(self)),
            old(self).state is PendingResponse ==> match scan(old(self).unread()) {
                ScanResult::NeedMore => r matches Err(MssqlError::Transport)
                    && final(self).state is Failed && final(self).unread() == old(self).unread(),
                ScanResult::Malformed => r matches Err(MssqlError::Protocol)
                    && final(self).state is Failed && final(self).unread() == old(self).unread(),
                ScanResult::Msg(p, c) => final(self).unread() == old(self).unread().skip(c)
                    && match spec_decode_response(p) {
                    DecodeOutcome::Rows(m) => r matches Ok(q) && q@ == m
                        && final(self).state is Ready,
                    DecodeOutcome::Failure(number, msg) => (r matches Err(MssqlError::Database {
                        number: rn,
                        message: rm,
                    }) && rn == number && rm@ == msg) && final(self).state is Ready,
                    DecodeOutcome::Malformed => r matches Err(MssqlError::Protocol)
                        && final(self).state is Failed,
                },
            },
    {
        match self.state {
            ConnectionState::PendingResponse => {},
            _ => {
                return Err(MssqlError::Protocol);
            },
        }
        match self.stream.read_message() {
            Err(e) => {
                self.state = ConnectionState::Failed;
                Err(e)
            },
            Ok(msg) => match decode_response(&msg) {
                Ok(q) => {
                    self.state = ConnectionState::Ready;
                    Ok(q)
                },
                Err(e) => {
                    if e.is_fatal() {
                        self.state = ConnectionState::Failed;
                    } else {
                        self.state = ConnectionState::Ready;
                    }
                    Err(e)
                },
            },
        }
    }

    /// One whole exchange: encode `cmd`, send it, flush, read the
    /// response and decode its token stream. Fails fast, touching
    /// nothing, while a previous response is pending or after a fatal
    /// error.
    pub fn execute(&mut self, cmd: &Command) -> (r: Result<QueryResult, MssqlError>)
        requires
            old(self).wf(),
            command_wf(cmd@),
        ensures
            final(self).wf(),
            final(self).transaction_open == old(self).transaction_open,
            final(self).stream.packet_size == old(self).stream.packet_size,
            final(self).stream.transport.open == old(self).stream.transport.open,
            !(old(self).state is Ready) ==> (r matches Err(MssqlError::Protocol) && *final(self)
                == *old(self)),
            (old(self).state is Ready && !old(self).stream.transport.open) ==> (r matches Err(
                MssqlError::Transport,
            ) && final(self).state is Failed && final(self).stream.transport.outgoing == old(self).stream.transport.outgoing),
            (old(self).state is Ready && old(self).stream.transport.open) ==> final(self).stream.transport.outgoing@ == old(self).stream.transport.outgoing@ + old(self).stream.wbuf@ + frame(
                PACKET_TYPE_SQL_BATCH,
                encode_command(cmd@, false),
                old(self).stream.packet_size as int,
            ) && !final(self).stream.pending_write() && match scan(old(self).unread()) {
                ScanResult::NeedMore => r matches Err(MssqlError::Transport)
                    && final(self).state is Failed,
                ScanResult::Malformed => r matches Err(MssqlError::Protocol)
                    && final(self).state is Failed,
                ScanResult::Msg(p, c) => final(self).unread() == old(self).unread().skip(c)
                    && match spec_decode_response(p) {
                    DecodeOutcome::Rows(m) => r matches Ok(q) && q@ == m
                        && final(self).state is Ready,
                    DecodeOutcome::Failure(number, msg) => (r matches Err(MssqlError::Database {
                        number: rn,
                        message: rm,
                    }) && rn == number && rm@ == msg) && final(self).state is Ready,
                    DecodeOutcome::Malformed => r matches Err(MssqlError::Protocol)
                        && final(self).state is Failed,
                },
            },
    {
        match self.start_execute(cmd) {
            Err(e) => Err(e),
            Ok(()) => self.fetch_result(),
        }
    }

    /// Drains an outstanding unread response so the connection returns
    /// to the idle state; used to resynchronize after a caller
    /// abandoned a response. Idle connections pass through; failed
    /// connections fail.
    pub fn wait_until_ready(&mut self) -> (r: Result<(), MssqlError>)
        requires
            old(self).wf(),
        ensures
            final(self).wf(),
            final(self).transaction_open == old(self).transaction_open,
            final(self).stream.packet_size == old(self).stream.packet_size,
            final(self).stream.wbuf == old(self).stream.wbuf,
            final(self).stream.transport.open == old(self).stream.transport.open,
            final(self).stream.transport.outgoing == old(self).stream.transport.outgoing,
            old(self).state is Failed ==> (r matches Err(MssqlError::Protocol) && *final(self)
                == *old(self)),
            old(self).state is Ready ==> (r is Ok && *final(self) == *old(self)),
            old(self).state is PendingResponse ==> match scan(old(self).unread()) {
                ScanResult::NeedMore => r matches Err(MssqlError::Transport)
                    && final(self).state is Failed,
                ScanResult::Malformed => r matches Err(MssqlError::Protocol)
                    && final(self).state is Failed,
                ScanResult::Msg(p, c) => r is Ok && final(self).state is Ready && final(self).unread() == old(self).unread().skip(c),
            },
    {
        match self.state {
            ConnectionState::Ready => Ok(()),
            ConnectionState::Failed => Err(MssqlError::Protocol),
            ConnectionState::PendingResponse => {
                match self.stream.read_message() {
                    Err(e) => {
                        self.state = ConnectionState::Failed;
                        Err(e)
                    },
                    Ok(_msg) => {
                        self.state = ConnectionState::Ready;
                        Ok(())
                    },
                }
            },
        }
    }

    /// Drains the write buffer to the transport and then any
    /// outstanding unread response, returning the connection to the
    /// idle state. `should_flush` reports false after a successful
    /// flush.
    pub fn flush(&mut self) -> (r: Result<(), MssqlError>)
        requires
            old(self).wf(),
        ensures
            final(self).wf(),
            final(self).transaction_open == old(self).transaction_open,
            final(self).stream.packet_size == old(self).stream.packet_size,
            final(self).stream.transport.open == old(self).stream.transport.open,
            !(old(self).state is PendingResponse) ==> final(self).unread() == old(self).unread(),
            old(self).state is Failed ==> (r matches Err(MssqlError::Protocol) && *final(self)
                == *old(self)),
            (!(old(self).state is Failed) && !old(self).stream.transport.open) ==> (r matches Err(
                MssqlError::Transport,
            ) && final(self).state is Failed),
            (!(old(self).state is Failed) && old(self).stream.transport.open) ==> (final(self).stream.transport.outgoing@ == old(self).stream.transport.outgoing@ + old(self).stream.wbuf@ && (r is Ok ==> (!final(self).stream.pending_write() && final(self).state is Ready))),
            (old(self).state is Ready && old(self).stream.transport.open) ==> r is Ok,
            (old(self).state is PendingResponse && old(self).stream.transport.open) ==> match scan(
                old(self).unread(),
            ) {
                ScanResult::NeedMore => r matches Err(MssqlError::Transport)
                    && final(self).state is Failed,
                ScanResult::Malformed => r matches Err(MssqlError::Protocol)
                    && final(self).state is Failed,
                ScanResult::Msg(_p, c) => r is Ok && final(self).state is Ready
                    && final(self).unread() == old(self).unread().skip(c),
            },
    {
        match self.state {
            ConnectionState::Failed => {
                return Err(MssqlError::Protocol);
            },
            _ => {},
        }
        match self.stream.flush() {
            Err(e) => {
                self.state = ConnectionState::Failed;
                return Err(e);
            },
            Ok(()) => {},
        }
        self.wait_until_ready()
    }

    /// Liveness probe: executes the comment-only no-op batch, never a
    /// data query, so ongoing transaction or locking state is left
    /// untouched. Success means the transport and the server session
    /// are alive; any failure means the connection must be discarded.
    pub fn ping(&mut self) -> (r: Result<(), MssqlError>)
        requires
            old(self).wf(),
        ensures
            final(self).wf(),
            final(self).transaction_open == old(self).transaction_open,
            final(self).stream.packet_size == old(self).stream.packet_size,
            final(self).stream.transport.open == old(self).stream.transport.open,
            !(old(self).state is Ready) ==> (r matches Err(MssqlError::Protocol) && *final(self)
                == *old(self)),
            (old(self).state is Ready && !old(self).stream.transport.open) ==> (r matches Err(
                MssqlError::Transport,
            ) && final(self).state is Failed),
            (old(self).state is Ready && old(self).stream.transport.open) ==> final(self).stream.transport.outgoing@ == old(self).stream.transport.outgoing@ + old(self).stream.wbuf@ + frame(
                PACKET_TYPE_SQL_BATCH,
                encode_command(ping_command(), false),
                old(self).stream.packet_size as int,
            ) && !final(self).stream.pending_write() && match scan(old(self).unread()) {
                ScanResult::NeedMore => r matches Err(MssqlError::Transport)
                    && final(self).state is Failed,
                ScanResult::Malformed => r matches Err(MssqlError::Protocol)
                    && final(self).state is Failed,
                ScanResult::Msg(p, c) => final(self).unread() == old(self).unread().skip(c)
                    && match spec_decode_response(p) {
                    DecodeOutcome::Rows(m) => r is Ok && final(self).state is Ready,
                    DecodeOutcome::Failure(number, msg) => (r matches Err(MssqlError::Database {
                        number: rn,
                        message: rm,
                    }) && rn == number && rm@ == msg) && final(self).state is Ready,
                    DecodeOutcome::Malformed => r matches Err(MssqlError::Protocol)
                        && final(self).state is Failed,
                },
            },
    {
        let cmd = Command { text: make_ping_text(), params: Vec::new() };
        proof {
            assert(cmd@.params =~= ping_command().params);
            assert(cmd@ == ping_command());
        }
        match self.execute(&cmd) {
            Ok(_q) => Ok(()),
            Err(e) => Err(e),
        }
    }

    /// Issues the begin-transaction command and records the open
    /// transaction. Fails, issuing nothing, when a transaction is
    /// already open.
    pub fn begin(&mut self) -> (r: Result<(), MssqlError>)
        requires
            old(self).wf(),
        ensures
            final(self).wf(),
            final(self).stream.packet_size == old(self).stream.packet_size,
            final(self).stream.transport.open == old(self).stream.transport.open,
            old(self).transaction_open ==> (r matches Err(MssqlError::Protocol) && *final(self)
                == *old(self)),
            final(self).transaction_open == (old(self).transaction_open || r is Ok),
            (!old(self).transaction_open && !(old(self).state is Ready)) ==> (r matches Err(
                MssqlError::Protocol,
            ) && final(self).state == old(self).state),
            (!old(self).transaction_open && old(self).state is Ready && !old(self).stream.transport.open) ==> (r matches Err(
                MssqlError::Transport,
            ) && final(self).state is Failed),
            (!old(self).transaction_open && old(self).state is Ready && old(self).stream.transport.open) ==> final(self).stream.transport.outgoing@ == old(self).stream.transport.outgoing@ + old(self).stream.wbuf@ + frame(
                PACKET_TYPE_SQL_BATCH,
                encode_command(begin_command(), false),
                old(self).stream.packet_size as int,
            ) && !final(self).stream.pending_write() && match scan(old(self).unread()) {
                ScanResult::NeedMore => r matches Err(MssqlError::Transport)
                    && final(self).state is Failed,
                ScanResult::Malformed => r matches Err(MssqlError::Protocol)
                    && final(self).state is Failed,
                ScanResult::Msg(p, c) => final(self).unread() == old(self).unread().skip(c)
                    && match spec_decode_response(p) {
                    DecodeOutcome::Rows(m) => r is Ok && final(self).state is Ready && final(self).transaction_open,
                    DecodeOutcome::Failure(number, msg) => (r matches Err(MssqlError::Database {
                        number: rn,
                        message: rm,
                    }) && rn == number && rm@ == msg) && final(self).state is Ready,
                    DecodeOutcome::Malformed => r matches Err(MssqlError::Protocol)
                        && final(self).state is Failed,
                },
            },
    {
        if self.transaction_open {
            return Err(MssqlError::Protocol);
        }
        let cmd = Command { text: make_begin_text(), params: Vec::new() };
        proof {
            assert(cmd@.params =~= begin_command().params);
            assert(cmd@ == begin_command());
        }
        match self.execute(&cmd) {
            Ok(_q) => {
                self.transaction_open = true;
                Ok(())
            },
            Err(e) => Err(e),
        }
    }

    /// Issues the commit-transaction command and closes the open
    /// transaction. Fails, issuing nothing, when no transaction is
    /// open.
    pub fn commit(&mut self) -> (r: Result<(), MssqlError>)
        requires
            old(self).wf(),
        ensures
            final(self).wf(),
            final(self).stream.packet_size == old(self).stream.packet_size,
            final(self).stream.transport.open == old(self).stream.transport.open,
            !old(self).transaction_open ==> (r matches Err(MssqlError::Protocol) && *final(self)
                == *old(self)),
            final(self).transaction_open == (old(self).transaction_open && !(r is Ok)),
            (old(self).transaction_open && !(old(self).state is Ready)) ==> (r matches Err(
                MssqlError::Protocol,
            ) && final(self).state == old(self).state),
            (old(self).transaction_open && old(self).state is Ready && !old(self).stream.transport.open) ==> (r matches Err(
                MssqlError::Transport,
            ) && final(self).state is Failed),
            (old(self).transaction_open && old(self).state is Ready && old(self).stream.transport.open) ==> final(self).stream.transport.outgoing@ == old(self).stream.transport.outgoing@ + old(self).stream.wbuf@ + frame(
                PACKET_TYPE_SQL_BATCH,
                encode_command(commit_command(), false),
                old(self).stream.packet_size as int,
            ) && !final(self).stream.pending_write() && match scan(old(self).unread()) {
                ScanResult::NeedMore => r matches Err(MssqlError::Transport)
                    && final(self).state is Failed,
                ScanResult::Malformed => r matches Err(MssqlError::Protocol)
                    && final(self).state is Failed,
                ScanResult::Msg(p, c) => final(self).unread() == old(self).unread().skip(c)
                    && match spec_decode_response(p) {
                    DecodeOutcome::Rows(m) => r is Ok && final(self).state is Ready
                        && !final(self).transaction_open,
                    DecodeOutcome::Failure(number, msg) => (r matches Err(MssqlError::Database {
                        number: rn,
                        message: rm,
                    }) && rn == number && rm@ == msg) && final(self).state is Ready,
                    DecodeOutcome::Malformed => r matches Err(MssqlError::Protocol)
                        && final(self).state is Failed,
                },
            },
    {
        if !self.transaction_open {
            return Err(MssqlError::Protocol);
        }
        let cmd = Command { text: make_commit_text(), params: Vec::new() };
        proof {
            assert(cmd@.params =~= commit_command().params);
            assert(cmd@ == commit_command());
        }
        match self.execute(&cmd) {
            Ok(_q) => {
                self.transaction_open = false;
                Ok(())
            },
            Err(e) => Err(e),
        }
    }

    /// Issues the rollback-transaction command and closes the open
    /// transaction. Fails, issuing nothing, when no transaction is
    /// open.
    pub fn rollback(&mut self) -> (r: Result<(), MssqlError>)
        requires
            old(self).wf(),
        ensures
            final(self).wf(),
            final(self).stream.packet_size == old(self).stream.packet_size,
            final(self).stream.transport.open == old(self).stream.transport.open,
            !old(self).transaction_open ==> (r matches Err(MssqlError::Protocol) && *final(self)
                == *old(self)),
            final(self).transaction_open == (old(self).transaction_open && !(r is Ok)),
            (old(self).transaction_open && !(old(self).state is Ready)) ==> (r matches Err(
                MssqlError::Protocol,
            ) && final(self).state == old(self).state),
            (old(self).transaction_open && old(self).state is Ready && !old(self).stream.transport.open) ==> (r matches Err(
                MssqlError::Transport,
            ) && final(self).state is Failed),
            (old(self).transaction_open && old(self).state is Ready && old(self).stream.transport.open) ==> final(self).stream.transport.outgoing@ == old(self).stream.transport.outgoing@ + old(self).stream.wbuf@ + frame(
                PACKET_TYPE_SQL_BATCH,
                encode_command(rollback_command(), false),
                old(self).stream.packet_size as int,
            ) && !final(self).stream.pending_write() && match scan(old(self).unread()) {
                ScanResult::NeedMore => r matches Err(MssqlError::Transport)
                    && final(self).state is Failed,
                ScanResult::Malformed => r matches Err(MssqlError::Protocol)
                    && final(self).state is Failed,
                ScanResult::Msg(p, c) => final(self).unread() == old(self).unread().skip(c)
                    && match spec_decode_response(p) {
                    DecodeOutcome::Rows(m) => r is Ok && final(self).state is Ready
                        && !final(self).transaction_open,
                    DecodeOutcome::Failure(number, msg) => (r matches Err(MssqlError::Database {
                        number: rn,
                        message: rm,
                    }) && rn == number && rm@ == msg) && final(self).state is Ready,
                    DecodeOutcome::Malformed => r matches Err(MssqlError::Protocol)
                        && final(self).state is Failed,
                },
            },
    {
        if !self.transaction_open {
            return Err(MssqlError::Protocol);
        }
        let cmd = Command { text: make_rollback_text(), params: Vec::new() };
        proof {
            assert(cmd@.params =~= rollback_command().params);
            assert(cmd@ == rollback_command());
        }
        match self.execute(&cmd) {
            Ok(_q) => {
                self.transaction_open = false;
                Ok(())
            },
            Err(e) => Err(e),
        }
    }

    /// Obtains parameter and column metadata for `cmd` without
    /// executing it: the same exchange as `execute` with the
    /// describe-only flag set, keeping only the first result set's
    /// column kinds.
    pub fn describe(&mut self, cmd: &Command) -> (r: Result<Vec<ColKind>, MssqlError>)
        requires
            old(self).wf(),
            command_wf(cmd@),
        ensures
            final(self).wf(),
            final(self).transaction_open == old(self).transaction_open,
            final(self).stream.packet_size == old(self).stream.packet_size,
            final(self).stream.transport.open == old(self).stream.transport.open,
            !(old(self).state is Ready) ==> (r matches Err(MssqlError::Protocol) && *final(self)
                == *old(self)),
            (old(self).state is Ready && !old(self).stream.transport.open) ==> (r matches Err(
                MssqlError::Transport,
            ) && final(self).state is Failed),
            (old(self).state is Ready && old(self).stream.transport.open) ==> final(self).stream.transport.outgoing@ == old(self).stream.transport.outgoing@ + old(self).stream.wbuf@ + frame(
                PACKET_TYPE_SQL_BATCH,
                encode_command(cmd@, true),
                old(self).stream.packet_size as int,
            ) && !final(self).stream.pending_write() && match scan(old(self).unread()) {
                ScanResult::NeedMore => r matches Err(MssqlError::Transport)
                    && final(self).state is Failed,
                ScanResult::Malformed => r matches Err(MssqlError::Protocol)
                    && final(self).state is Failed,
                ScanResult::Msg(p, c) => final(self).unread() == old(self).unread().skip(c)
                    && match spec_decode_response(p) {
                    DecodeOutcome::Rows(m) => r matches Ok(cols) && final(self).state is Ready
                        && cols@ == (if m.len() > 0 {
                        m[0].columns
                    } else {
                        Seq::<ColKind>::empty()
                    }),
                    DecodeOutcome::Failure(number, msg) => (r matches Err(MssqlError::Database {
                        number: rn,
                        message: rm,
                    }) && rn == number && rm@ == msg) && final(self).state is Ready,
                    DecodeOutcome::Malformed => r matches Err(MssqlError::Protocol)
                        && final(self).state is Failed,
                },
            },
    {
        let payload = command_payload(cmd, true);
        match self.start_request(&payload) {
            Err(e) => {
                return Err(e);
            },
            Ok(()) => {},
        }
        match self.fetch_result() {
            Err(e) => Err(e),
            Ok(q) => {
                let mut q = q;
                if q.sets.len() > 0 {
                    let set = q.sets.remove(0);
                    Ok(set.columns)
                } else {
                    Ok(Vec::new())
                }
            },
        }
    }
}

} // verus!

