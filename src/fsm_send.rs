//! Sender state machine of the alternating-bit protocol.
//!
//! States: Start, Send, Wait and End. Each transition is a pure function from
//! state and event to the next state and a [`SndOutput`] that tells the driver
//! what to transmit and what to do with the retransmission timer.

use vstd::prelude::*;
use crate::pck::{Flag, Packet, PacketError, PacketView, built};
use crate::timer::TimerCmd;

verus! {

/// An event of the sender.
pub enum SndEvent {
    /// Begin the session (Start only).
    InitSYN,
    /// The retransmission timer expired (Wait only).
    Timeout,
    /// A datagram from the receiver arrived; `None` when it did not decode.
    RecvPck(Option<Packet>),
    /// Whether the file has more bytes to send (Send only).
    DataAvailable(bool),
}

/// Abstract sender event.
pub ghost enum SndEventView {
    InitSYN,
    Timeout,
    RecvPck(Option<PacketView>),
    DataAvailable(bool),
}

impl View for SndEvent {
    type V = SndEventView;

    open spec fn view(&self) -> SndEventView {
        match self {
            SndEvent::InitSYN => SndEventView::InitSYN,
            SndEvent::Timeout => SndEventView::Timeout,
            SndEvent::RecvPck(Some(p)) => SndEventView::RecvPck(Some(p@)),
            SndEvent::RecvPck(None) => SndEventView::RecvPck(None),
            SndEvent::DataAvailable(b) => SndEventView::DataAvailable(*b),
        }
    }
}

/// Abstract sender state.
pub ghost enum SndStateView {
    Start { n: u8 },
    Send { n: u8 },
    Wait { n: u8, rc: u8, last: PacketView },
    End,
}

/// Abstract output of a transition.
pub ghost struct SndOutputView {
    pub send: Option<Seq<u8>>,
    pub timer: TimerCmd,
    pub data_sent: nat,
}

/// What the driver must do after a transition.
pub struct SndOutput {
    /// Wire bytes to hand to the channel.
    pub send: Option<Vec<u8>>,
    /// What to do with the retransmission timer.
    pub timer: TimerCmd,
    /// DATA payload bytes handed over by this transition.
    pub data_sent: usize,
}

impl View for SndOutput {
    type V = SndOutputView;

    open spec fn view(&self) -> SndOutputView {
        SndOutputView {
            send: match self.send {
                Some(b) => Some(b@),
                None => None,
            },
            timer: self.timer,
            data_sent: self.data_sent as nat,
        }
    }
}

/// The sequence bit a sequence number stands for.
pub open spec fn seq_bit(n: u8) -> bool {
    n != 0
}

/// The sequence number that follows `n`.
pub open spec fn spec_next_n(n: u8) -> u8 {
    if n == 0 {
        1
    } else {
        0
    }
}

/// `p` is an intact frame of kind `kind` carrying sequence number `n`.
pub open spec fn acknowledges(p: PacketView, kind: Flag, n: u8) -> bool {
    !p.is_corrupt() && p.flag == kind && p.seq_n() == n
}

/// Send a frame and start the timer.
pub open spec fn transmit(p: PacketView, data_sent: nat) -> SndOutputView {
    SndOutputView { send: Some(p.wire()), timer: TimerCmd::Start, data_sent }
}

/// Nothing to do.
pub open spec fn snd_idle() -> SndOutputView {
    SndOutputView { send: None, timer: TimerCmd::Keep, data_sent: 0 }
}

/// The events a state can take; any other pairing is a driver error.
pub open spec fn snd_event_fits(s: SndStateView, e: SndEventView) -> bool {
    match s {
        SndStateView::Start { .. } => e is InitSYN,
        SndStateView::Send { .. } => e is DataAvailable || e is RecvPck,
        SndStateView::Wait { .. } => e is Timeout || e is RecvPck,
        SndStateView::End => false,
    }
}

/// The transition builds a frame around the caller's payload: the file name
/// in Start, the bytes read from the file in Send.
pub open spec fn snd_takes_payload(s: SndStateView, e: SndEventView) -> bool {
    s is Start || (s is Send && e == SndEventView::DataAvailable(true))
}

/// The sender's transition table. `data_available` is the driver's probe of
/// the file, read when an intact FINACK arrives in Wait.
pub open spec fn snd_step(s: SndStateView, max: u8, e: SndEventView, payload: Seq<u8>, data_available: bool) -> (
    SndStateView,
    SndOutputView,
) {
    match s {
        SndStateView::Start { n } => {
            let p = built(seq_bit(n), Flag::SYN, payload);
            (SndStateView::Wait { n, rc: 0, last: p }, transmit(p, 0))
        },
        SndStateView::Send { n } => match e {
            SndEventView::DataAvailable(true) => {
                let p = built(seq_bit(n), Flag::Data, payload);
                (SndStateView::Wait { n, rc: 0, last: p }, transmit(p, payload.len()))
            },
            SndEventView::DataAvailable(false) => {
                let p = built(seq_bit(n), Flag::FIN, Seq::empty());
                (SndStateView::Wait { n, rc: 0, last: p }, transmit(p, 0))
            },
            _ => (s, snd_idle()),
        },
        SndStateView::Wait { n, rc, last } => match e {
            SndEventView::Timeout => {
                if rc < max {
                    (SndStateView::Wait { n, rc: (rc + 1) as u8, last }, transmit(last, 0))
                } else {
                    (SndStateView::End, snd_idle())
                }
            },
            SndEventView::RecvPck(Some(p)) => {
                if acknowledges(p, Flag::ACK, n) {
                    (
                        SndStateView::Send { n: spec_next_n(n) },
                        SndOutputView { send: None, timer: TimerCmd::Stop, data_sent: 0 },
                    )
                } else if acknowledges(p, Flag::FINACK, n) && !data_available {
                    (SndStateView::End, snd_idle())
                } else {
                    (s, snd_idle())
                }
            },
            _ => (s, snd_idle()),
        },
        SndStateView::End => (s, snd_idle()),
    }
}

/// Start state; `n` is always 0 for a fresh session.
#[derive(Clone)]
pub struct SndStateStart {
    n: u8,
}

impl View for SndStateStart {
    type V = SndStateView;

    closed spec fn view(&self) -> SndStateView {
        SndStateView::Start { n: self.n }
    }
}

impl SndStateStart {
    pub fn new(n: u8) -> (r: Self)
        ensures
            r@ == (SndStateView::Start { n }),
    {
        Self { n }
    }

    pub fn n(&self) -> (r: u8)
        ensures
            self@ == (SndStateView::Start { n: r }),
    {
        self.n
    }
}

/// Wait state: the last frame sent and how often it was sent again.
#[derive(Clone)]
pub struct SndStateWait {
    n: u8,
    retransmit_counter: u8,
    /// last sent packet
    sndpkt: Packet,
}

impl View for SndStateWait {
    type V = SndStateView;

    closed spec fn view(&self) -> SndStateView {
        SndStateView::Wait { n: self.n, rc: self.retransmit_counter, last: self.sndpkt@ }
    }
}

impl SndStateWait {
    pub fn new(n: u8, sndpkt: Packet) -> (r: Self)
        ensures
            r@ == (SndStateView::Wait { n, rc: 0, last: sndpkt@ }),
    {
        Self { n, retransmit_counter: 0, sndpkt }
    }

    pub fn n(&self) -> (r: u8)
        ensures
            self@ matches SndStateView::Wait { n, .. } && r == n,
    {
        self.n
    }

    pub fn retransmit_counter(&self) -> (r: u8)
        ensures
            self@ matches SndStateView::Wait { rc, .. } && r == rc,
    {
        self.retransmit_counter
    }

    pub fn sndpkt(&self) -> (r: &Packet)
        ensures
            self@ matches SndStateView::Wait { last, .. } && r@ == last,
    {
        &self.sndpkt
    }
}

/// Send state: the next frame carries sequence number `n`.
#[derive(Clone)]
pub struct SndStateSend {
    pub n: u8,
}

impl View for SndStateSend {
    type V = SndStateView;

    open spec fn view(&self) -> SndStateView {
        SndStateView::Send { n: self.n }
    }
}

impl SndStateSend {
    pub fn new(n: u8) -> (r: Self)
        ensures
            r@ == (SndStateView::Send { n }),
    {
        Self { n }
    }

    pub fn n(&self) -> (r: u8)
        ensures
            self@ == (SndStateView::Send { n: r }),
    {
        self.n
    }
}

/// End state: the session is over.
#[derive(Clone)]
pub struct SndStateEnd;

impl View for SndStateEnd {
    type V = SndStateView;

    open spec fn view(&self) -> SndStateView {
        SndStateView::End
    }
}

/// Settings that stay fixed for a session.
#[derive(Clone, Copy)]
pub struct Config {
    pub max_retransmits: u8,
}

impl Config {
    pub fn new(max_retransmits: u8) -> (r: Self)
        ensures
            r.max_retransmits == max_retransmits,
    {
        Self { max_retransmits }
    }
}

/// The sender in state `State`, with its retransmission budget.
pub struct SndFsm<State> {
    state: State,
    config: Config,
}

impl<State> SndFsm<State> {
    /// The state held.
    pub closed spec fn spec_state(&self) -> State {
        self.state
    }

    /// The retransmission budget.
    pub closed spec fn spec_max(&self) -> u8 {
        self.config.max_retransmits
    }

    pub fn new(state: State, max_retransmits: u8) -> (r: Self)
        ensures
            r.spec_state() == state,
            r.spec_max() == max_retransmits,
    {
        SndFsm { state, config: Config::new(max_retransmits) }
    }

    pub fn max_retransmits(&self) -> (r: u8)
        ensures
            r == self.spec_max(),
    {
        self.config.max_retransmits
    }

    pub fn state(&self) -> (r: &State)
        ensures
            *r == self.spec_state(),
    {
        &self.state
    }

    pub fn to_send(&self, n: u8) -> (r: SndFsm<SndStateSend>)
        ensures
            r.spec_state()@ == (SndStateView::Send { n }),
            r.spec_max() == self.spec_max(),
    {
        SndFsm { state: SndStateSend::new(n), config: self.config }
    }

    pub fn to_wait(&self, n: u8, sndpkt: Packet) -> (r: SndFsm<SndStateWait>)
        ensures
            r.spec_state()@ == (SndStateView::Wait { n, rc: 0, last: sndpkt@ }),
            r.spec_max() == self.spec_max(),
    {
        SndFsm { state: SndStateWait::new(n, sndpkt), config: self.config }
    }

    pub fn to_end(&self) -> (r: SndFsm<SndStateEnd>)
        ensures
            r.spec_state()@ == SndStateView::End,
            r.spec_max() == self.spec_max(),
    {
        SndFsm { state: SndStateEnd, config: self.config }
    }
}

/// Puts a sender in the state-tagged wrapper.
pub trait FsmWrap: Sized {
    spec fn wrapped(self) -> FsmStateWrapper;

    fn wrap(self) -> (r: FsmStateWrapper)
        ensures
            r == self.wrapped(),
    ;
}

impl FsmWrap for SndFsm<SndStateStart> {
    open spec fn wrapped(self) -> FsmStateWrapper {
        FsmStateWrapper::Start(self)
    }

    fn wrap(self) -> (r: FsmStateWrapper) {
        FsmStateWrapper::Start(self)
    }
}

impl FsmWrap for SndFsm<SndStateWait> {
    open spec fn wrapped(self) -> FsmStateWrapper {
        FsmStateWrapper::Wait(self)
    }

    fn wrap(self) -> (r: FsmStateWrapper) {
        FsmStateWrapper::Wait(self)
    }
}

impl FsmWrap for SndFsm<SndStateSend> {
    open spec fn wrapped(self) -> FsmStateWrapper {
        FsmStateWrapper::Send(self)
    }

    fn wrap(self) -> (r: FsmStateWrapper) {
        FsmStateWrapper::Send(self)
    }
}

impl FsmWrap for SndFsm<SndStateEnd> {
    open spec fn wrapped(self) -> FsmStateWrapper {
        FsmStateWrapper::End
    }

    fn wrap(self) -> (r: FsmStateWrapper) {
        FsmStateWrapper::End
    }
}

impl SndFsm<SndStateWait> {
    /// The same state with the retransmission counter one higher.
    pub fn inc_retransmit(&self) -> (r: Self)
        requires
            self.spec_state()@ matches SndStateView::Wait { rc, .. } && rc < 255,
        ensures
            r.spec_max() == self.spec_max(),
            self.spec_state()@ matches SndStateView::Wait { n, rc, last } && r.spec_state()@ == (
            SndStateView::Wait { n, rc: (rc + 1) as u8, last }),
    {
        let s = SndStateWait {
            n: self.state.n,
            retransmit_counter: self.state.retransmit_counter + 1,
            sndpkt: self.state.sndpkt.duplicate(),
        };
        SndFsm::new(s, self.max_retransmits())
    }
}

impl SndFsm<SndStateStart> {
    /// A fresh sender: Start with sequence number 0.
    pub fn init(max_retransmits: u8) -> (r: SndFsm<SndStateStart>)
        ensures
            r.spec_state()@ == (SndStateView::Start { n: 0 }),
            r.spec_max() == max_retransmits,
    {
        SndFsm::new(SndStateStart::new(0), max_retransmits)
    }
}

/// The sender in whichever state it is.
pub enum FsmStateWrapper {
    Start(SndFsm<SndStateStart>),
    Wait(SndFsm<SndStateWait>),
    Send(SndFsm<SndStateSend>),
    End,
}

impl View for FsmStateWrapper {
    type V = SndStateView;

    open spec fn view(&self) -> SndStateView {
        match self {
            FsmStateWrapper::Start(f) => f.spec_state()@,
            FsmStateWrapper::Wait(f) => f.spec_state()@,
            FsmStateWrapper::Send(f) => f.spec_state()@,
            FsmStateWrapper::End => SndStateView::End,
        }
    }
}

impl FsmStateWrapper {
    /// The retransmission budget; none is left at the end.
    pub open spec fn spec_max(&self) -> u8 {
        match self {
            FsmStateWrapper::Start(f) => f.spec_max(),
            FsmStateWrapper::Wait(f) => f.spec_max(),
            FsmStateWrapper::Send(f) => f.spec_max(),
            FsmStateWrapper::End => 0,
        }
    }
}

/// Copies the wire bytes of a packet for the channel.
fn wire_bytes(p: &Packet) -> (r: Vec<u8>)
    ensures
        r@ == p@.wire(),
{
    vstd::slice::slice_to_vec(p.encode())
}

/// Output that sends `p` and starts the timer.
fn transmit_output(p: &Packet, data_sent: usize) -> (r: SndOutput)
    ensures
        r@ == transmit(p@, data_sent as nat),
{
    SndOutput { send: Some(wire_bytes(p)), timer: TimerCmd::Start, data_sent }
}

/// Output that does nothing.
fn idle_output() -> (r: SndOutput)
    ensures
        r@ == snd_idle(),
{
    SndOutput { send: None, timer: TimerCmd::Keep, data_sent: 0 }
}

/// What a sender transition returns: the next state and the driver's work,
/// or the error of a frame that could not be built.
pub type SndStep = Result<(FsmStateWrapper, SndOutput), PacketError>;

/// `r` is what the transition table says for `(s, max, e, payload, data_available)`.
pub open spec fn snd_step_result(
    s: SndStateView,
    max: u8,
    e: SndEventView,
    payload: Seq<u8>,
    data_available: bool,
    r: SndStep,
) -> bool {
    &&& (snd_takes_payload(s, e) && payload.len() > 508) <==> r is Err
    &&& r matches Err(err) ==> err == PacketError::PayloadTooLarge
    &&& r matches Ok((w, o)) ==> {
        &&& (w@, o@) == snd_step(s, max, e, payload, data_available)
        &&& !(w is End) ==> w.spec_max() == max
    }
}

impl SndFsm<SndStateStart> {
    /// Start: send SYN carrying `payload` (the file name) and wait for its ACK.
    pub fn goto(self, e: SndEvent, payload: Vec<u8>, data_available: bool) -> (r: SndStep)
        requires
            e is InitSYN,
        ensures
            snd_step_result(self.spec_state()@, self.spec_max(), e@, payload@, data_available, r),
    {
        let n = self.state().n();
        match Packet::new(n != 0, Flag::SYN, payload) {
            Ok(sndpck) => {
                let out = transmit_output(&sndpck, 0);
                Ok((self.to_wait(n, sndpck).wrap(), out))
            },
            Err(err) => Err(err),
        }
    }
}

impl SndFsm<SndStateSend> {
    /// Send: a DATA frame with `payload` while the file has data, else FIN.
    pub fn goto(self, e: SndEvent, payload: Vec<u8>, data_available: bool) -> (r: SndStep)
        requires
            e is DataAvailable || e is RecvPck,
        ensures
            snd_step_result(self.spec_state()@, self.spec_max(), e@, payload@, data_available, r),
    {
        let n = self.state().n();
        match e {
            SndEvent::DataAvailable(true) => {
                let len = payload.len();
                match Packet::new(n != 0, Flag::Data, payload) {
                    Ok(sndpck) => {
                        let out = transmit_output(&sndpck, len);
                        Ok((self.to_wait(n, sndpck).wrap(), out))
                    },
                    Err(err) => Err(err),
                }
            },
            SndEvent::DataAvailable(false) => {
                match Packet::new(n != 0, Flag::FIN, Vec::new()) {
                    Ok(sndpck) => {
                        let out = transmit_output(&sndpck, 0);
                        assert(sndpck@.payload =~= Seq::<u8>::empty());
                        Ok((self.to_wait(n, sndpck).wrap(), out))
                    },
                    Err(err) => Err(err),
                }
            },
            _ => Ok((self.wrap(), idle_output())),
        }
    }
}

impl SndFsm<SndStateWait> {
    /// Wait: retransmit on timeout until the budget is spent; move on when
    /// the frame is acknowledged.
    pub fn goto(self, e: SndEvent, payload: Vec<u8>, data_available: bool) -> (r: SndStep)
        requires
            e is Timeout || e is RecvPck,
        ensures
            snd_step_result(self.spec_state()@, self.spec_max(), e@, payload@, data_available, r),
    {
        let n = self.state().n();
        match e {
            SndEvent::Timeout => {
                if self.state().retransmit_counter() < self.max_retransmits() {
                    let out = transmit_output(self.state().sndpkt(), 0);
                    Ok((self.inc_retransmit().wrap(), out))
                } else {
                    Ok((self.to_end().wrap(), idle_output()))
                }
            },
            SndEvent::RecvPck(Some(rcvpkt)) => {
                if rcvpkt.notcorrupt() && rcvpkt.is_ACK() && rcvpkt.n() == n {
                    let out = SndOutput { send: None, timer: TimerCmd::Stop, data_sent: 0 };
                    Ok((self.to_send(next_n(n)).wrap(), out))
                } else if rcvpkt.notcorrupt() && rcvpkt.is_FINACK() && rcvpkt.n() == n && !data_available {
                    Ok((self.to_end().wrap(), idle_output()))
                } else {
                    Ok((self.wrap(), idle_output()))
                }
            },
            _ => Ok((self.wrap(), idle_output())),
        }
    }
}

impl FsmStateWrapper {
    /// One transition of the sender. `payload` is the file name in Start and
    /// the bytes read from the file in Send when data is available; it is
    /// ignored otherwise. `data_available` is the driver's probe of the file,
    /// read in Wait when an intact FINACK with the awaited number arrives.
    pub fn goto(self, e: SndEvent, payload: Vec<u8>, data_available: bool) -> (r: SndStep)
        requires
            snd_event_fits(self@, e@),
        ensures
            snd_step_result(self@, self.spec_max(), e@, payload@, data_available, r),
    {
        match self {
            FsmStateWrapper::Start(fsm) => fsm.goto(e, payload, data_available),
            FsmStateWrapper::Wait(fsm) => fsm.goto(e, payload, data_available),
            FsmStateWrapper::Send(fsm) => fsm.goto(e, payload, data_available),
            FsmStateWrapper::End => Ok((FsmStateWrapper::End, idle_output())),
        }
    }

    /// The session is over.
    pub fn is_end(&self) -> (r: bool)
        ensures
            r == (self@ is End),
    {
        match self {
            FsmStateWrapper::Start(fsm) => false,
            FsmStateWrapper::Wait(fsm) => false,
            FsmStateWrapper::Send(fsm) => false,
            FsmStateWrapper::End => true,
        }
    }
}

/// The sender state after `k` timeouts in a row.
pub open spec fn snd_after_timeouts(s: SndStateView, max: u8, k: nat) -> SndStateView
    decreases k,
{
    if k == 0 {
        s
    } else {
        snd_after_timeouts(snd_step(s, max, SndEventView::Timeout, Seq::empty(), false).0, max, (k - 1) as nat)
    }
}

/// Once no acknowledgement gets through, a waiting sender that has used
/// `rc` of its `max` retransmissions keeps retransmitting the same frame for
/// `max - rc` timeouts and stops at the next one: with a fresh frame the
/// session ends after at most `max + 1` timer periods.
pub proof fn lemma_timeouts_end_session(n: u8, rc: u8, last: PacketView, max: u8)
    requires
        rc <= max,
    ensures
        snd_after_timeouts(SndStateView::Wait { n, rc, last }, max, (max - rc + 1) as nat)
            == SndStateView::End,
        forall|k: nat|
            k <= max - rc ==> #[trigger] snd_after_timeouts(SndStateView::Wait { n, rc, last }, max, k)
                == (SndStateView::Wait { n, rc: (rc + k) as u8, last }),
    decreases max - rc,
{
    let s = SndStateView::Wait { n, rc, last };
    if rc == max {
        assert(snd_after_timeouts(SndStateView::End, max, 0) == SndStateView::End);
        assert forall|k: nat| k <= max - rc implies #[trigger] snd_after_timeouts(s, max, k) == (
        SndStateView::Wait { n, rc: (rc + k) as u8, last }) by {
            assert(k == 0);
        }
    } else {
        let s1 = SndStateView::Wait { n, rc: (rc + 1) as u8, last };
        assert(snd_step(s, max, SndEventView::Timeout, Seq::empty(), false).0 == s1);
        lemma_timeouts_end_session(n, (rc + 1) as u8, last, max);
        assert(snd_after_timeouts(s, max, (max - rc + 1) as nat) == snd_after_timeouts(
            s1,
            max,
            (max - (rc + 1) + 1) as nat,
        ));
        assert forall|k: nat| k <= max - rc implies #[trigger] snd_after_timeouts(s, max, k) == (
        SndStateView::Wait { n, rc: (rc + k) as u8, last }) by {
            if k > 0 {
                assert(snd_after_timeouts(s, max, k) == snd_after_timeouts(s1, max, (k - 1) as nat));
                assert(snd_after_timeouts(s1, max, (k - 1) as nat) == (SndStateView::Wait {
                    n,
                    rc: (rc + 1 + (k - 1)) as u8,
                    last,
                }));
            }
        }
    }
}

/// The kind of event the driver must produce next.
#[derive(PartialEq, Eq, Clone, Copy, Debug, Structural)]
pub enum SndNeed {
    /// Start the session: `InitSYN`.
    Init,
    /// Probe the file: `DataAvailable`, with the bytes read.
    FileData,
    /// Receive with the timer's remaining budget: `RecvPck` or `Timeout`.
    AckOrTimeout,
    /// The session is over.
    Done,
}

/// Which event the current state takes.
pub fn next_event_kind(w: &FsmStateWrapper) -> (r: SndNeed)
    ensures
        r == match w@ {
            SndStateView::Start { .. } => SndNeed::Init,
            SndStateView::Send { .. } => SndNeed::FileData,
            SndStateView::Wait { .. } => SndNeed::AckOrTimeout,
            SndStateView::End => SndNeed::Done,
        },
{
    match w {
        FsmStateWrapper::Start(_) => SndNeed::Init,
        FsmStateWrapper::Send(_) => SndNeed::FileData,
        FsmStateWrapper::Wait(_) => SndNeed::AckOrTimeout,
        FsmStateWrapper::End => SndNeed::Done,
    }
}

/// The sequence number after `n`: 0 becomes 1, anything else 0.
pub fn next_n(n: u8) -> (r: u8)
    ensures
        r == spec_next_n(n),
{
    match n {
        0 => 1,
        _ => 0,
    }
}

} // verus!
