//! Receiver state machine of the alternating-bit protocol.
//!
//! States: WaitForConnection and WaitForPkt. Each transition is a pure
//! function from state and event to the next state and a [`RcvOutput`] that
//! tells the driver which file to open, what to append, what to send back and
//! what to do with the connection timer.

use vstd::prelude::*;
use crate::pck::{Flag, Packet, PacketView, built};
use crate::timer::TimerCmd;

verus! {

/// An event of the receiver. Datagrams from peers other than the current
/// sender are filtered out by the driver before they become events.
pub enum RcvEvent {
    /// The connection timer expired (WaitForPkt only).
    ConnectionTimeout,
    /// A datagram arrived; `None` when it did not decode.
    RecvPck(Option<Packet>),
}

/// Why the file name in a SYN was refused.
#[derive(PartialEq, Eq, Clone, Copy, Debug, Structural)]
pub enum FileNameError {
    /// The payload is not UTF-8.
    NotUtf8,
    /// Empty, `.`, a path separator, `..`, NUL, or a reserved device name.
    Unsafe,
}

/// The text that UTF-8 bytes stand for, or `None` when they are not UTF-8.
pub uninterp spec fn utf8_decode(bytes: Seq<u8>) -> Option<Seq<char>>;

/// All bytes are ASCII.
pub open spec fn is_ascii(bytes: Seq<u8>) -> bool {
    forall|i: int| 0 <= i < bytes.len() ==> #[trigger] bytes[i] < 0x80
}

/// The characters that ASCII bytes stand for, one per byte.
pub open spec fn ascii_chars(bytes: Seq<u8>) -> Seq<char> {
    bytes.map_values(|b: u8| b as char)
}

/// Relies on `std::str::from_utf8`: `Ok` exactly for valid UTF-8, holding
/// the text it encodes; ASCII is valid UTF-8, one character per byte.
#[verifier::external_body]
fn decode_utf8(bytes: &[u8]) -> (r: Option<String>)
    ensures
        r is Some <==> utf8_decode(bytes@) is Some,
        r matches Some(s) ==> utf8_decode(bytes@) == Some(s@),
        is_ascii(bytes@) ==> r is Some && r->Some_0@ == ascii_chars(bytes@),
{
    match std::str::from_utf8(bytes) {
        Ok(s) => Some(s.to_string()),
        Err(_) => None,
    }
}

/// ASCII upper case of a byte.
pub open spec fn ascii_upper(c: u8) -> u8 {
    if 0x61 <= c <= 0x7a {
        (c - 0x20) as u8
    } else {
        c
    }
}

/// `stem` names a device on some platforms (CON, PRN, AUX, NUL, COM1-9,
/// LPT1-9), in any letter case.
pub open spec fn is_device_stem(stem: Seq<u8>) -> bool {
    let u = |i: int| ascii_upper(stem[i]);
    ||| stem.len() == 3 && (
        (u(0) == 0x43 && u(1) == 0x4f && u(2) == 0x4e)  // CON
         || (u(0) == 0x50 && u(1) == 0x52 && u(2) == 0x4e)  // PRN
         || (u(0) == 0x41 && u(1) == 0x55 && u(2) == 0x58)  // AUX
         || (u(0) == 0x4e && u(1) == 0x55 && u(2) == 0x4c)  // NUL
    )
    ||| stem.len() == 4 && (
        (u(0) == 0x43 && u(1) == 0x4f && u(2) == 0x4d)  // COM
         || (u(0) == 0x4c && u(1) == 0x50 && u(2) == 0x54)  // LPT
    ) && 0x31 <= stem[3] <= 0x39
}

/// Index of the first `.` in `b`, or its length.
pub open spec fn stem_len(b: Seq<u8>) -> nat
    decreases b.len(),
{
    if b.len() == 0 {
        0
    } else if b[0] == 0x2e {
        0
    } else {
        1 + stem_len(b.drop_first())
    }
}

/// Two dots in a row occur somewhere in `b` (as in `..` or `a..b`).
pub open spec fn contains_dot_dot(b: Seq<u8>) -> bool {
    exists|i: int| 0 <= i && i + 1 < b.len() && #[trigger] b[i] == 0x2e && b[i + 1] == 0x2e
}

/// A file name that stays inside the target directory: not empty, not `.`,
/// no `/`, `\` or NUL, no `..`, and no device name as its stem.
pub open spec fn is_safe_file_name(b: Seq<u8>) -> bool {
    &&& b.len() > 0
    &&& b != seq![0x2eu8]
    &&& forall|i: int| 0 <= i < b.len() ==> #[trigger] b[i] != 0x2f && b[i] != 0x5c && b[i] != 0
    &&& !contains_dot_dot(b)
    &&& !is_device_stem(b.take(stem_len(b) as int))
}

/// The file name a SYN payload names, or why it is refused.
pub open spec fn file_name_of(payload: Seq<u8>) -> Result<Seq<char>, FileNameError> {
    match utf8_decode(payload) {
        None => Err(FileNameError::NotUtf8),
        Some(s) => if is_safe_file_name(payload) {
            Ok(s)
        } else {
            Err(FileNameError::Unsafe)
        },
    }
}

proof fn lemma_stem_len_step(b: Seq<u8>, i: int)
    requires
        0 <= i < b.len(),
        b[i] != 0x2e,
    ensures
        stem_len(b.subrange(i, b.len() as int)) == 1 + stem_len(b.subrange(i + 1, b.len() as int)),
{
    assert(b.subrange(i, b.len() as int).drop_first() =~= b.subrange(i + 1, b.len() as int));
}

/// Length of the part of `b` before its first `.`.
fn find_stem_len(b: &[u8]) -> (r: usize)
    ensures
        r == stem_len(b@),
{
    let mut i: usize = 0;
    assert(b@.subrange(0, b@.len() as int) =~= b@);
    while i < b.len() && b[i] != 0x2e
        invariant
            i <= b@.len(),
            stem_len(b@) == i + stem_len(b@.subrange(i as int, b@.len() as int)),
        decreases b@.len() - i,
    {
        proof {
            lemma_stem_len_step(b@, i as int);
        }
        i += 1;
    }
    i
}

fn upper(c: u8) -> (r: u8)
    ensures
        r == ascii_upper(c),
{
    if 0x61 <= c && c <= 0x7a {
        c - 0x20
    } else {
        c
    }
}

fn is_device_stem_prefix(b: &[u8], k: usize) -> (r: bool)
    requires
        k <= b@.len(),
    ensures
        r == is_device_stem(b@.take(k as int)),
{
    let ghost stem = b@.take(k as int);
    if k == 3 {
        let (u0, u1, u2) = (upper(b[0]), upper(b[1]), upper(b[2]));
        assert(u0 == ascii_upper(stem[0]) && u1 == ascii_upper(stem[1]) && u2 == ascii_upper(stem[2]));
        (u0 == 0x43 && u1 == 0x4f && u2 == 0x4e) || (u0 == 0x50 && u1 == 0x52 && u2 == 0x4e) || (u0
            == 0x41 && u1 == 0x55 && u2 == 0x58) || (u0 == 0x4e && u1 == 0x55 && u2 == 0x4c)
    } else if k == 4 {
        let (u0, u1, u2) = (upper(b[0]), upper(b[1]), upper(b[2]));
        assert(u0 == ascii_upper(stem[0]) && u1 == ascii_upper(stem[1]) && u2 == ascii_upper(stem[2]));
        assert(stem[3] == b@[3]);
        ((u0 == 0x43 && u1 == 0x4f && u2 == 0x4d) || (u0 == 0x4c && u1 == 0x50 && u2 == 0x54)) && 0x31
            <= b[3] && b[3] <= 0x39
    } else {
        false
    }
}

/// Whether a received file name is safe to create inside the target
/// directory.
pub fn file_name_is_safe(b: &[u8]) -> (r: bool)
    ensures
        r == is_safe_file_name(b@),
{
    if b.len() == 0 {
        return false;
    }
    if b.len() == 1 && b[0] == 0x2e {
        assert(b@ =~= seq![0x2eu8]);
        return false;
    }
    let mut i: usize = 0;
    while i < b.len()
        invariant
            i <= b@.len(),
            forall|j: int| 0 <= j < i ==> #[trigger] b@[j] != 0x2f && b@[j] != 0x5c && b@[j] != 0,
            forall|j: int| 0 <= j < i && j < b@.len() - 1 ==> !(#[trigger] b@[j] == 0x2e && b@[j + 1] == 0x2e),
        decreases b@.len() - i,
    {
        let c = b[i];
        if c == 0x2f || c == 0x5c || c == 0 {
            assert(!(b@[i as int] != 0x2f && b@[i as int] != 0x5c && b@[i as int] != 0));
            return false;
        }
        if c == 0x2e && i + 1 < b.len() && b[i + 1] == 0x2e {
            assert(b@[i as int] == 0x2e && b@[i + 1] == 0x2e);
            return false;
        }
        i += 1;
    }
    let k = find_stem_len(b);
    proof {
        lemma_stem_len_bound(b@);
    }
    !is_device_stem_prefix(b, k)
}

proof fn lemma_stem_len_bound(b: Seq<u8>)
    ensures
        stem_len(b) <= b.len(),
    decreases b.len(),
{
    if b.len() > 0 && b[0] != 0x2e {
        lemma_stem_len_bound(b.drop_first());
    }
}

/// Reads the file name carried by a SYN: UTF-8 text that names a plain file.
pub fn extract_file_name(rcvpkt: &Packet) -> (r: Result<String, FileNameError>)
    ensures
        match r {
            Ok(s) => file_name_of(rcvpkt@.payload) == Ok::<Seq<char>, FileNameError>(s@),
            Err(e) => file_name_of(rcvpkt@.payload) == Err::<Seq<char>, FileNameError>(e),
        },
        is_ascii(rcvpkt@.payload) && is_safe_file_name(rcvpkt@.payload) ==> r is Ok && r->Ok_0@
            == ascii_chars(rcvpkt@.payload),
{
    let payload = rcvpkt.payload();
    match decode_utf8(payload) {
        None => Err(FileNameError::NotUtf8),
        Some(s) => if file_name_is_safe(payload) {
            Ok(s)
        } else {
            Err(FileNameError::Unsafe)
        },
    }
}

/// Abstract receiver event.
pub ghost enum RcvEventView {
    ConnectionTimeout,
    RecvPck(Option<PacketView>),
}

impl View for RcvEvent {
    type V = RcvEventView;

    open spec fn view(&self) -> RcvEventView {
        match self {
            RcvEvent::ConnectionTimeout => RcvEventView::ConnectionTimeout,
            RcvEvent::RecvPck(Some(p)) => RcvEventView::RecvPck(Some(p@)),
            RcvEvent::RecvPck(None) => RcvEventView::RecvPck(None),
        }
    }
}

/// Abstract receiver state.
pub ghost enum RcvStateView {
    WaitForConnection,
    WaitForPkt { last: PacketView },
}

/// Abstract output of a transition.
pub ghost struct RcvOutputView {
    pub open_file: Option<Seq<char>>,
    pub write: Option<Seq<u8>>,
    pub send: Option<Seq<u8>>,
    pub timer: TimerCmd,
    pub close_file: bool,
}

/// What the driver must do after a transition, in this order: open the
/// file (and take the datagram's source as the current sender), append,
/// send, handle the timer, close the file.
pub struct RcvOutput {
    /// Name of the file to create in the target directory.
    pub open_file: Option<String>,
    /// Bytes to append to the open file.
    pub write: Option<Vec<u8>>,
    /// Wire bytes to send back to the datagram's source.
    pub send: Option<Vec<u8>>,
    /// What to do with the connection timer.
    pub timer: TimerCmd,
    /// Flush and close the file; the session is over.
    pub close_file: bool,
}

/// View of an optional byte vector.
pub open spec fn opt_bytes(o: Option<Vec<u8>>) -> Option<Seq<u8>> {
    match o {
        Some(b) => Some(b@),
        None => None,
    }
}

impl View for RcvOutput {
    type V = RcvOutputView;

    open spec fn view(&self) -> RcvOutputView {
        RcvOutputView {
            open_file: match self.open_file {
                Some(s) => Some(s@),
                None => None,
            },
            write: opt_bytes(self.write),
            send: opt_bytes(self.send),
            timer: self.timer,
            close_file: self.close_file,
        }
    }
}

/// Nothing to do.
pub open spec fn rcv_idle() -> RcvOutputView {
    RcvOutputView { open_file: None, write: None, send: None, timer: TimerCmd::Keep, close_file: false }
}

/// Only send `p`.
pub open spec fn reply(p: PacketView, timer: TimerCmd, close_file: bool) -> RcvOutputView {
    RcvOutputView { open_file: None, write: None, send: Some(p.wire()), timer, close_file }
}

/// The empty frame of kind `kind` that answers a frame with sequence bit `n`.
pub open spec fn answer(kind: Flag, n: bool) -> PacketView {
    built(n, kind, Seq::empty())
}

/// The events a state can take; a timeout while no session runs is a
/// driver error.
pub open spec fn rcv_event_fits(s: RcvStateView, e: RcvEventView) -> bool {
    s is WaitForConnection ==> e is RecvPck
}

/// The receiver's transition table.
pub open spec fn rcv_step(s: RcvStateView, e: RcvEventView) -> Result<(RcvStateView, RcvOutputView), FileNameError> {
    match s {
        RcvStateView::WaitForConnection => match e {
            RcvEventView::RecvPck(Some(p)) => {
                if !p.is_corrupt() && p.flag == Flag::SYN && p.seq_n() == 0 {
                    match file_name_of(p.payload) {
                        Err(err) => Err(err),
                        Ok(name) => {
                            let ack = answer(Flag::ACK, false);
                            Ok(
                                (
                                    RcvStateView::WaitForPkt { last: ack },
                                    RcvOutputView {
                                        open_file: Some(name),
                                        write: None,
                                        send: Some(ack.wire()),
                                        timer: TimerCmd::Start,
                                        close_file: false,
                                    },
                                ),
                            )
                        },
                    }
                } else if !p.is_corrupt() && p.flag == Flag::FIN {
                    // a sender whose FINACK was lost repeats its FIN after the
                    // session closed: answer it, write nothing
                    Ok((s, reply(answer(Flag::FINACK, p.n), TimerCmd::Keep, false)))
                } else {
                    Ok((s, rcv_idle()))
                }
            },
            _ => Ok((s, rcv_idle())),
        },
        RcvStateView::WaitForPkt { last } => match e {
            RcvEventView::ConnectionTimeout => Ok(
                (
                    RcvStateView::WaitForConnection,
                    RcvOutputView {
                        open_file: None,
                        write: None,
                        send: None,
                        timer: TimerCmd::Keep,
                        close_file: true,
                    },
                ),
            ),
            RcvEventView::RecvPck(Some(p)) => {
                if p.is_corrupt() || p.flag == Flag::SYN {
                    Ok((s, rcv_idle()))
                } else if p.n == last.n {
                    Ok((s, reply(last, TimerCmd::Start, false)))
                } else if p.flag == Flag::Data {
                    let ack = answer(Flag::ACK, p.n);
                    Ok(
                        (
                            RcvStateView::WaitForPkt { last: ack },
                            RcvOutputView {
                                open_file: None,
                                write: Some(p.payload),
                                send: Some(ack.wire()),
                                timer: TimerCmd::Start,
                                close_file: false,
                            },
                        ),
                    )
                } else if p.flag == Flag::FIN {
                    Ok(
                        (
                            RcvStateView::WaitForConnection,
                            reply(answer(Flag::FINACK, p.n), TimerCmd::Stop, true),
                        ),
                    )
                } else {
                    Ok((s, rcv_idle()))
                }
            },
            RcvEventView::RecvPck(None) => Ok((s, rcv_idle())),
        },
    }
}

/// Waiting for a sender's SYN.
#[derive(Clone)]
pub struct RcvStateWaitForConnection {}

impl RcvStateWaitForConnection {
    pub fn new() -> (r: Self) {
        Self {}
    }
}

/// A session runs; the last acknowledgement sent is kept for resending.
#[derive(Clone)]
pub struct RcvStateWaitForPkt {
    /// last sent packet
    sndpkt: Packet,
}

impl View for RcvStateWaitForPkt {
    type V = PacketView;

    closed spec fn view(&self) -> PacketView {
        self.sndpkt@
    }
}

impl RcvStateWaitForPkt {
    pub fn new(sndpkt: Packet) -> (r: Self)
        ensures
            r@ == sndpkt@,
    {
        Self { sndpkt }
    }

    pub fn sndpkt(&self) -> (r: &Packet)
        ensures
            r@ == self@,
    {
        &self.sndpkt
    }
}

/// Settings that stay fixed while the receiver runs.
#[derive(Clone, Copy)]
pub struct Config {}

impl Config {
    pub fn new() -> (r: Self) {
        Self {}
    }
}

/// The receiver in state `State`.
pub struct RcvFsm<State> {
    _state: State,
    _config: Config,
}

impl<State> RcvFsm<State> {
    /// The state held.
    pub closed spec fn spec_state(&self) -> State {
        self._state
    }

    pub fn new(state: State) -> (r: Self)
        ensures
            r.spec_state() == state,
    {
        RcvFsm { _state: state, _config: Config::new() }
    }

    pub fn state(&self) -> (r: &State)
        ensures
            *r == self.spec_state(),
    {
        &self._state
    }

    pub fn to_wait_for_connection(&self) -> (r: RcvFsm<RcvStateWaitForConnection>) {
        RcvFsm { _state: RcvStateWaitForConnection::new(), _config: self._config }
    }

    pub fn to_wait_for_pkt(&self, sndpkt: Packet) -> (r: RcvFsm<RcvStateWaitForPkt>)
        ensures
            r.spec_state()@ == sndpkt@,
    {
        RcvFsm { _state: RcvStateWaitForPkt::new(sndpkt), _config: self._config }
    }
}

/// Puts a receiver in the state-tagged wrapper.
pub trait FsmWrap: Sized {
    spec fn wrapped(self) -> FsmStateWrapper;

    fn wrap(self) -> (r: FsmStateWrapper)
        ensures
            r == self.wrapped(),
    ;
}

impl FsmWrap for RcvFsm<RcvStateWaitForConnection> {
    open spec fn wrapped(self) -> FsmStateWrapper {
        FsmStateWrapper::WaitForConnection(self)
    }

    fn wrap(self) -> (r: FsmStateWrapper) {
        FsmStateWrapper::WaitForConnection(self)
    }
}

impl FsmWrap for RcvFsm<RcvStateWaitForPkt> {
    open spec fn wrapped(self) -> FsmStateWrapper {
        FsmStateWrapper::WaitForPkt(self)
    }

    fn wrap(self) -> (r: FsmStateWrapper) {
        FsmStateWrapper::WaitForPkt(self)
    }
}

impl RcvFsm<RcvStateWaitForConnection> {
    /// A fresh receiver, waiting for a connection.
    pub fn init() -> (r: RcvFsm<RcvStateWaitForConnection>) {
        RcvFsm::new(RcvStateWaitForConnection::new())
    }
}

/// The receiver in whichever state it is.
pub enum FsmStateWrapper {
    WaitForConnection(RcvFsm<RcvStateWaitForConnection>),
    WaitForPkt(RcvFsm<RcvStateWaitForPkt>),
}

impl View for FsmStateWrapper {
    type V = RcvStateView;

    open spec fn view(&self) -> RcvStateView {
        match self {
            FsmStateWrapper::WaitForConnection(_) => RcvStateView::WaitForConnection,
            FsmStateWrapper::WaitForPkt(f) => RcvStateView::WaitForPkt { last: f.spec_state()@ },
        }
    }
}

/// What a receiver transition returns.
pub type RcvStep = Result<(FsmStateWrapper, RcvOutput), FileNameError>;

/// `r` is what the transition table says for `(s, e)`.
pub open spec fn rcv_step_result(s: RcvStateView, e: RcvEventView, r: RcvStep) -> bool {
    match r {
        Ok((w, o)) => rcv_step(s, e) == Ok::<(RcvStateView, RcvOutputView), FileNameError>((w@, o@)),
        Err(err) => rcv_step(s, e) == Err::<(RcvStateView, RcvOutputView), FileNameError>(err),
    }
}

/// The empty answer frame of kind `kind` with sequence bit `n`.
fn make_answer(n: u8, kind: Flag) -> (r: Packet)
    ensures
        r@ == answer(kind, n != 0),
{
    Packet::empty_frame(n != 0, kind)
}

/// Copies the wire bytes of a packet for the channel.
fn wire_bytes(p: &Packet) -> (r: Vec<u8>)
    ensures
        r@ == p@.wire(),
{
    vstd::slice::slice_to_vec(p.encode())
}

fn idle_output() -> (r: RcvOutput)
    ensures
        r@ == rcv_idle(),
{
    RcvOutput { open_file: None, write: None, send: None, timer: TimerCmd::Keep, close_file: false }
}

fn reply_output(p: &Packet, timer: TimerCmd, close_file: bool) -> (r: RcvOutput)
    ensures
        r@ == reply(p@, timer, close_file),
{
    RcvOutput { open_file: None, write: None, send: Some(wire_bytes(p)), timer, close_file }
}

impl RcvFsm<RcvStateWaitForConnection> {
    /// WaitForConnection: accept an intact SYN with sequence number 0 and
    /// open the file it names; answer a stray FIN with FINACK.
    pub fn goto(self, e: RcvEvent) -> (r: RcvStep)
        requires
            e is RecvPck,
        ensures
            rcv_step_result(RcvStateView::WaitForConnection, e@, r),
    {
        match e {
            RcvEvent::RecvPck(Some(rcvpkt)) => {
                if rcvpkt.notcorrupt() && rcvpkt.is_SYN() && rcvpkt.n() == 0 {
                    match extract_file_name(&rcvpkt) {
                        Err(err) => Err(err),
                        Ok(file_name) => {
                            let sndpkt = make_answer(rcvpkt.n(), Flag::ACK);
                            let out = RcvOutput {
                                open_file: Some(file_name),
                                write: None,
                                send: Some(wire_bytes(&sndpkt)),
                                timer: TimerCmd::Start,
                                close_file: false,
                            };
                            Ok((self.to_wait_for_pkt(sndpkt).wrap(), out))
                        },
                    }
                } else if rcvpkt.notcorrupt() && rcvpkt.is_FIN() {
                    let sndpkt = make_answer(rcvpkt.n(), Flag::FINACK);
                    Ok((self.wrap(), reply_output(&sndpkt, TimerCmd::Keep, false)))
                } else {
                    Ok((self.wrap(), idle_output()))
                }
            },
            _ => Ok((self.wrap(), idle_output())),
        }
    }
}

impl RcvFsm<RcvStateWaitForPkt> {
    /// WaitForPkt: append each new DATA payload once and acknowledge it,
    /// resend the last acknowledgement for a repeated frame, close on FIN or
    /// on timeout.
    pub fn goto(self, e: RcvEvent) -> (r: RcvStep)
        ensures
            rcv_step_result(RcvStateView::WaitForPkt { last: self.spec_state()@ }, e@, r),
    {
        match e {
            RcvEvent::ConnectionTimeout => {
                let out = RcvOutput {
                    open_file: None,
                    write: None,
                    send: None,
                    timer: TimerCmd::Keep,
                    close_file: true,
                };
                Ok((self.to_wait_for_connection().wrap(), out))
            },
            RcvEvent::RecvPck(Some(rcvpkt)) => {
                let last_n = self.state().sndpkt().n();
                if rcvpkt.corrupt() || rcvpkt.is_SYN() {
                    Ok((self.wrap(), idle_output()))
                } else if rcvpkt.n() == last_n {
                    let out = reply_output(self.state().sndpkt(), TimerCmd::Start, false);
                    Ok((self.wrap(), out))
                } else if rcvpkt.is_Data() {
                    let sndpkt = make_answer(rcvpkt.n(), Flag::ACK);
                    let out = RcvOutput {
                        open_file: None,
                        write: Some(vstd::slice::slice_to_vec(rcvpkt.payload())),
                        send: Some(wire_bytes(&sndpkt)),
                        timer: TimerCmd::Start,
                        close_file: false,
                    };
                    Ok((self.to_wait_for_pkt(sndpkt).wrap(), out))
                } else if rcvpkt.is_FIN() {
                    let sndpkt = make_answer(rcvpkt.n(), Flag::FINACK);
                    let out = reply_output(&sndpkt, TimerCmd::Stop, true);
                    Ok((self.to_wait_for_connection().wrap(), out))
                } else {
                    Ok((self.wrap(), idle_output()))
                }
            },
            RcvEvent::RecvPck(None) => Ok((self.wrap(), idle_output())),
        }
    }
}

impl FsmStateWrapper {
    /// One transition of the receiver.
    pub fn goto(self, e: RcvEvent) -> (r: RcvStep)
        requires
            rcv_event_fits(self@, e@),
        ensures
            rcv_step_result(self@, e@, r),
    {
        match self {
            FsmStateWrapper::WaitForConnection(fsm) => fsm.goto(e),
            FsmStateWrapper::WaitForPkt(fsm) => fsm.goto(e),
        }
    }

    /// A session is running.
    pub fn in_session(&self) -> (r: bool)
        ensures
            r == (self@ is WaitForPkt),
    {
        match self {
            FsmStateWrapper::WaitForConnection(_) => false,
            FsmStateWrapper::WaitForPkt(_) => true,
        }
    }
}

/// A DATA frame that arrives twice during a session is written once: the
/// first copy is appended and acknowledged, the second only makes the
/// receiver send the same acknowledgement again, and the state is unchanged.
pub proof fn lemma_duplicate_data_written_once(last: PacketView, p: PacketView)
    requires
        !p.is_corrupt(),
        p.flag == Flag::Data,
        p.n != last.n,
    ensures
        ({
            let first = rcv_step(RcvStateView::WaitForPkt { last }, RcvEventView::RecvPck(Some(p)));
            let second = rcv_step(first->Ok_0.0, RcvEventView::RecvPck(Some(p)));
            &&& first is Ok
            &&& first->Ok_0.1.write == Some(p.payload)
            &&& second is Ok
            &&& second->Ok_0.0 == first->Ok_0.0
            &&& second->Ok_0.1.write is None
            &&& second->Ok_0.1.send == first->Ok_0.1.send
            &&& second->Ok_0.1.open_file is None
            &&& !second->Ok_0.1.close_file
        }),
{
    let ack = answer(Flag::ACK, p.n);
    assert(ack.n == p.n);
}

} // verus!
