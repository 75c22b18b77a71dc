//! The transfers between the host and the virtual scanner: scan data packed
//! into reports, the queue of reports, and the conversation that follows a
//! granted import.

use std::collections::VecDeque;

use vstd::prelude::*;
use vstd::string::*;
use vstd::utf8::*;

use crate::bytes::{be32, get_be32, law_be32_round_trip, put_all, put_be32, put_zeros, word32, zeros};
use crate::descriptor::{control_response, handle_control_request};
use crate::usbip::{USBIP_CMD_SUBMIT, USBIP_CMD_UNLINK, USBIP_RET_SUBMIT, USBIP_RET_UNLINK};

verus! {

// ---------------------------------------------------------------------------
// Reports
// ---------------------------------------------------------------------------

/// The `k`th group of eight bytes of `data`, with zeros past its end.
pub open spec fn report_at(data: Seq<u8>, k: int) -> Seq<u8> {
    Seq::new(
        8,
        |j: int|
            if 8 * k + j < data.len() {
                data[8 * k + j]
            } else {
                0u8
            },
    )
}

/// `data` cut into reports of eight bytes, the last one filled up with zeros.
pub open spec fn reports_of(data: Seq<u8>) -> Seq<Seq<u8>> {
    Seq::new(((data.len() + 7) / 8) as nat, |k: int| report_at(data, k))
}

/// The contents of a sequence of reports.
pub open spec fn contents(reports: Seq<[u8; 8]>) -> Seq<Seq<u8>> {
    Seq::new(reports.len(), |i: int| reports[i]@)
}

/// The byte at `i`, or zero past the end.
fn byte_at(data: &[u8], i: usize, j: usize) -> (r: u8)
    requires
        i <= data.len(),
        j < 8,
    ensures
        r == (if i + j < data.len() {
            data@[i + j]
        } else {
            0u8
        }),
{
    if j < data.len() - i {
        data[i + j]
    } else {
        0
    }
}

/// Packs a text into reports of eight raw bytes, the last one filled up with
/// zeros.
pub fn text_to_scanner_reports(text: &str) -> (reports: Vec<[u8; 8]>)
    ensures
        contents(reports@) == reports_of(encode_utf8(text@)),
{
    let data: &[u8] = text.as_bytes();
    let n: usize = data.len();
    let count: usize = if n % 8 > 0 {
        n / 8 + 1
    } else {
        n / 8
    };
    let mut reports: Vec<[u8; 8]> = Vec::new();
    let mut k: usize = 0;
    while k < count
        invariant
            n == data.len(),
            count == (n + 7) / 8,
            k <= count,
            reports.len() == k,
            forall|i: int| 0 <= i < k ==> (#[trigger] reports@[i])@ == report_at(data@, i),
        decreases count - k,
    {
        let i: usize = k * 8;
        let report: [u8; 8] = [
            byte_at(data, i, 0),
            byte_at(data, i, 1),
            byte_at(data, i, 2),
            byte_at(data, i, 3),
            byte_at(data, i, 4),
            byte_at(data, i, 5),
            byte_at(data, i, 6),
            byte_at(data, i, 7),
        ];
        assert(report@ =~= report_at(data@, k as int));
        reports.push(report);
        k = k + 1;
    }
    assert(contents(reports@) =~= reports_of(data@));
    reports
}

/// `std::str::from_utf8`: succeeds exactly on well-formed UTF-8, with the text
/// that the bytes encode.
#[verifier::external_body]
fn from_utf8(data: &[u8]) -> (r: Option<&str>)
    ensures
        r is Some <==> valid_utf8(data@),
        r matches Some(s) ==> s@ == decode_utf8(data@),
{
    std::str::from_utf8(data).ok()
}

/// The reports that scan data gives: none if the data is no text.
pub open spec fn scan_reports(data: Seq<u8>) -> Seq<Seq<u8>> {
    if valid_utf8(data) {
        reports_of(data)
    } else {
        seq![]
    }
}

/// Every byte of the data stands in the reports, in order, and only zeros
/// follow.
pub proof fn law_reports_hold_the_data(data: Seq<u8>, i: int)
    requires
        0 <= i < 8 * reports_of(data).len(),
    ensures
        reports_of(data)[i / 8].len() == 8,
        reports_of(data)[i / 8][i % 8] == (if i < data.len() {
            data[i]
        } else {
            0u8
        }),
        8 * reports_of(data).len() >= data.len(),
        8 * reports_of(data).len() < data.len() + 8,
{
}

/// Texts without NULs can be told apart by their reports.
pub proof fn law_reports_determine_the_data(a: Seq<u8>, b: Seq<u8>)
    requires
        !a.contains(0u8),
        !b.contains(0u8),
        reports_of(a) == reports_of(b),
    ensures
        a == b,
{
    lemma_not_shorter(a, b);
    lemma_not_shorter(b, a);
    assert forall|i: int| 0 <= i < a.len() implies a[i] == b[i] by {
        law_reports_hold_the_data(a, i);
        law_reports_hold_the_data(b, i);
    }
    assert(a =~= b);
}

proof fn lemma_not_shorter(a: Seq<u8>, b: Seq<u8>)
    requires
        !b.contains(0u8),
        reports_of(a) == reports_of(b),
    ensures
        a.len() >= b.len(),
{
    let i = a.len() as int;
    if i < b.len() {
        law_reports_hold_the_data(b, 0);
        law_reports_hold_the_data(b, i);
        law_reports_hold_the_data(a, i);
        assert(b[i] == 0u8);
        assert(b.contains(0u8));
    }
}

// ---------------------------------------------------------------------------
// The queue of reports
// ---------------------------------------------------------------------------

/// The reports that wait for the host, first in, first out.
pub struct ReportQueue {
    reports: VecDeque<[u8; 8]>,
}

impl View for ReportQueue {
    type V = Seq<Seq<u8>>;

    closed spec fn view(&self) -> Seq<Seq<u8>> {
        contents(self.reports@)
    }
}

impl ReportQueue {
    /// A queue without reports.
    pub fn new() -> (q: ReportQueue)
        ensures
            q@ == Seq::<Seq<u8>>::empty(),
    {
        let q = ReportQueue { reports: VecDeque::new() };
        assert(contents(q.reports@) =~= Seq::<Seq<u8>>::empty());
        q
    }

    /// Appends the reports of scan data, and says whether there were any, so
    /// that the conversation is to be woken.
    pub fn accept(&mut self, data: &[u8]) -> (wake: bool)
        ensures
            final(self)@ == old(self)@ + scan_reports(data@),
            wake == (scan_reports(data@).len() > 0),
    {
        let ghost before = self@;
        match from_utf8(data) {
            Some(text) => {
                let reports = text_to_scanner_reports(text);
                proof {
                    decode_utf8_encode_utf8(data@);
                }
                let mut i: usize = 0;
                assert(self@ =~= before + contents(reports@).take(0));
                while i < reports.len()
                    invariant
                        i <= reports.len(),
                        self@ == before + contents(reports@).take(i as int),
                    decreases reports.len() - i,
                {
                    let ghost now = self.reports@;
                    self.reports.push_back(reports[i]);
                    assert(self@ =~= contents(now).push(reports@[i as int]@));
                    assert(self@ =~= before + contents(reports@).take(i + 1));
                    i = i + 1;
                }
                assert(contents(reports@).take(i as int) =~= contents(reports@));
                reports.len() > 0
            },
            None => {
                assert(self@ =~= before + Seq::<Seq<u8>>::empty());
                false
            },
        }
    }

    /// Removes the report that has waited longest.
    pub fn take(&mut self) -> (r: Option<[u8; 8]>)
        ensures
            match r {
                Some(report) => {
                    &&& old(self)@.len() > 0
                    &&& report@ == old(self)@[0]
                    &&& final(self)@ == old(self)@.drop_first()
                },
                None => old(self)@.len() == 0 && final(self)@ == old(self)@,
            },
    {
        let ghost before = self.reports@;
        let r = self.reports.pop_front();
        proof {
            if before.len() > 0 {
                assert(self@ =~= contents(before).drop_first());
            } else {
                assert(self@ =~= contents(before));
            }
        }
        r
    }
}

// ---------------------------------------------------------------------------
// Commands and replies
// ---------------------------------------------------------------------------

/// A command of the host: the fields of its 48 bytes that matter here.
#[derive(Debug, Clone, Copy)]
pub struct Header {
    pub command: u32,
    pub seqnum: u32,
    pub devid: u32,
    pub direction: u32,
    pub ep: u32,
    /// For an unlink, the sequence number of the command to cancel.
    pub target: u32,
    /// For a submit, the length of the data that goes with it.
    pub length: u32,
    pub setup: [u8; 8],
}

/// A command of the host.
#[verifier::ext_equal]
pub struct HeaderView {
    pub command: u32,
    pub seqnum: u32,
    pub devid: u32,
    pub direction: u32,
    pub ep: u32,
    pub target: u32,
    pub length: u32,
    pub setup: Seq<u8>,
}

impl View for Header {
    type V = HeaderView;

    open spec fn view(&self) -> HeaderView {
        HeaderView {
            command: self.command,
            seqnum: self.seqnum,
            devid: self.devid,
            direction: self.direction,
            ep: self.ep,
            target: self.target,
            length: self.length,
            setup: self.setup@,
        }
    }
}

/// The command whose 48 bytes are `h`.
pub open spec fn header_of(h: Seq<u8>) -> HeaderView {
    HeaderView {
        command: word32(h, 0) as u32,
        seqnum: word32(h, 4) as u32,
        devid: word32(h, 8) as u32,
        direction: word32(h, 12) as u32,
        ep: word32(h, 16) as u32,
        target: word32(h, 20) as u32,
        length: word32(h, 24) as u32,
        setup: h.subrange(40, 48),
    }
}

/// Reads a command.
pub fn read_header(h: &[u8; 48]) -> (r: Header)
    ensures
        r@ == header_of(h@),
{
    let s: &[u8] = h.as_slice();
    let setup: [u8; 8] = [h[40], h[41], h[42], h[43], h[44], h[45], h[46], h[47]];
    assert(setup@ =~= h@.subrange(40, 48));
    Header {
        command: get_be32(s, 0),
        seqnum: get_be32(s, 4),
        devid: get_be32(s, 8),
        direction: get_be32(s, 12),
        ep: get_be32(s, 16),
        target: get_be32(s, 20),
        length: get_be32(s, 24),
        setup,
    }
}

/// What a reply begins with: what it replies to, and the identification of the
/// command.
pub open spec fn identification(
    command: u32,
    seqnum: u32,
    devid: u32,
    direction: u32,
    ep: u32,
) -> Seq<u8> {
    be32(command) + be32(seqnum) + be32(devid) + be32(direction) + be32(ep)
}

/// The reply to a submitted command: its identification, status zero, the
/// length of the data, the setup bytes of the command, and the data.
pub open spec fn ret_submit(
    seqnum: u32,
    devid: u32,
    direction: u32,
    ep: u32,
    setup: Seq<u8>,
    data: Seq<u8>,
) -> Seq<u8> {
    identification(USBIP_RET_SUBMIT, seqnum, devid, direction, ep) + be32(0) + be32(
        (data.len() % 0x1_0000_0000) as u32,
    ) + be32(0) + be32(0) + be32(0) + setup + data
}

/// The reply to a submitted command.
pub fn build_ret_submit(
    seqnum: u32,
    devid: u32,
    direction: u32,
    ep: u32,
    setup: &[u8; 8],
    data: &[u8],
) -> (ret: Vec<u8>)
    ensures
        ret@ == ret_submit(seqnum, devid, direction, ep, setup@, data@),
{
    let mut ret: Vec<u8> = Vec::new();
    put_be32(&mut ret, USBIP_RET_SUBMIT);
    put_be32(&mut ret, seqnum);
    put_be32(&mut ret, devid);
    put_be32(&mut ret, direction);
    put_be32(&mut ret, ep);
    put_be32(&mut ret, 0);  // status
    put_be32(&mut ret, (data.len() as u64 % 0x1_0000_0000) as u32);  // actual_length
    put_be32(&mut ret, 0);  // start_frame
    put_be32(&mut ret, 0);  // num_packets
    put_be32(&mut ret, 0);  // error_count
    put_all(&mut ret, setup.as_slice());
    put_all(&mut ret, data);
    assert(ret@ =~= ret_submit(seqnum, devid, direction, ep, setup@, data@));
    ret
}

/// The reply to a command that cancels another: its identification, status
/// zero, and zeros up to 48 bytes.
pub open spec fn ret_unlink(seqnum: u32, devid: u32, direction: u32, ep: u32) -> Seq<u8> {
    identification(USBIP_RET_UNLINK, seqnum, devid, direction, ep) + zeros(28)
}

/// The reply to a command that cancels another.
pub fn build_ret_unlink(seqnum: u32, devid: u32, direction: u32, ep: u32) -> (ret: Vec<u8>)
    ensures
        ret@ == ret_unlink(seqnum, devid, direction, ep),
{
    let mut ret: Vec<u8> = Vec::new();
    put_be32(&mut ret, USBIP_RET_UNLINK);
    put_be32(&mut ret, seqnum);
    put_be32(&mut ret, devid);
    put_be32(&mut ret, direction);
    put_be32(&mut ret, ep);
    put_zeros(&mut ret, 28);
    assert(ret@ =~= ret_unlink(seqnum, devid, direction, ep));
    ret
}

// ---------------------------------------------------------------------------
// The conversation
// ---------------------------------------------------------------------------

/// A request for a report that waits until there is one.
#[derive(Debug, Clone, Copy)]
pub struct PendingEp1In {
    pub seqnum: u32,
    pub devid: u32,
    pub setup: [u8; 8],
}

/// A request for a report that waits until there is one.
#[verifier::ext_equal]
pub struct PendingView {
    pub seqnum: u32,
    pub devid: u32,
    pub setup: Seq<u8>,
}

impl View for PendingEp1In {
    type V = PendingView;

    open spec fn view(&self) -> PendingView {
        PendingView { seqnum: self.seqnum, devid: self.devid, setup: self.setup@ }
    }
}

/// What the conversation has asked for and waits to hear.
#[derive(Debug, Clone, Copy)]
pub enum Phase {
    /// The next command.
    Command,
    /// That a report or a command has arrived.
    Arrival,
    /// That the data of this command has been read.
    Body(Header),
    /// A report for this command.
    ReportFor(Header),
    /// A report for the request that waits.
    ReportForPending,
    /// That a reply has been sent.
    Delivery,
    /// Nothing: the conversation is over.
    Over,
}

/// What the conversation has asked for and waits to hear.
pub enum PhaseView {
    Command,
    Arrival,
    Body(HeaderView),
    ReportFor(HeaderView),
    ReportForPending,
    Delivery,
    Over,
}

impl View for Phase {
    type V = PhaseView;

    open spec fn view(&self) -> PhaseView {
        match self {
            Phase::Command => PhaseView::Command,
            Phase::Arrival => PhaseView::Arrival,
            Phase::Body(h) => PhaseView::Body(h@),
            Phase::ReportFor(h) => PhaseView::ReportFor(h@),
            Phase::ReportForPending => PhaseView::ReportForPending,
            Phase::Delivery => PhaseView::Delivery,
            Phase::Over => PhaseView::Over,
        }
    }
}

/// What has happened since the last action.
#[derive(Debug, Clone, Copy)]
pub enum TransferEvent {
    /// The 48 bytes of a command have been read.
    Command([u8; 48]),
    /// Waiting has ended: reports may have been queued, or a command is there.
    Arrival { notified: bool, readable: bool },
    /// Waiting was interrupted.
    Interrupted,
    /// The data of a command has been read.
    BodyRead,
    /// What the queue of reports gave.
    Report(Option<[u8; 8]>),
    /// The reply has been sent.
    Sent,
    /// Reading or sending failed.
    Broken,
}

/// What has happened since the last action.
pub enum TransferEventView {
    Command(Seq<u8>),
    Arrival { notified: bool, readable: bool },
    Interrupted,
    BodyRead,
    Report(Option<Seq<u8>>),
    Sent,
    Broken,
}

impl View for TransferEvent {
    type V = TransferEventView;

    open spec fn view(&self) -> TransferEventView {
        match self {
            TransferEvent::Command(h) => TransferEventView::Command(h@),
            TransferEvent::Arrival { notified, readable } => TransferEventView::Arrival {
                notified: *notified,
                readable: *readable,
            },
            TransferEvent::Interrupted => TransferEventView::Interrupted,
            TransferEvent::BodyRead => TransferEventView::BodyRead,
            TransferEvent::Report(Some(r)) => TransferEventView::Report(Some(r@)),
            TransferEvent::Report(None) => TransferEventView::Report(None),
            TransferEvent::Sent => TransferEventView::Sent,
            TransferEvent::Broken => TransferEventView::Broken,
        }
    }
}

/// What to do next.
#[derive(Debug)]
pub enum TransferAction {
    /// Read the 48 bytes of the next command.
    ReadCommand,
    /// Wait until reports are queued or a command arrives.
    Wait,
    /// Read this many bytes and drop them.
    SkipBody(u32),
    /// Take a report from the queue.
    TakeReport,
    /// Clear the notification, then take a report from the queue.
    ClearAndTakeReport,
    /// Send a reply.
    Send(Vec<u8>),
    /// End the conversation.
    Stop,
}

/// What to do next.
pub enum TransferActionView {
    ReadCommand,
    Wait,
    SkipBody(u32),
    TakeReport,
    ClearAndTakeReport,
    Send(Seq<u8>),
    Stop,
}

impl View for TransferAction {
    type V = TransferActionView;

    open spec fn view(&self) -> TransferActionView {
        match self {
            TransferAction::ReadCommand => TransferActionView::ReadCommand,
            TransferAction::Wait => TransferActionView::Wait,
            TransferAction::SkipBody(n) => TransferActionView::SkipBody(*n),
            TransferAction::TakeReport => TransferActionView::TakeReport,
            TransferAction::ClearAndTakeReport => TransferActionView::ClearAndTakeReport,
            TransferAction::Send(d) => TransferActionView::Send(d@),
            TransferAction::Stop => TransferActionView::Stop,
        }
    }
}

/// The state of a conversation: the request that waits for a report, if there
/// is one, and what the conversation waits to hear.
#[derive(Debug, Clone, Copy)]
pub struct Transfers {
    pub pending: Option<PendingEp1In>,
    pub phase: Phase,
}

/// The state of a conversation.
pub struct TransfersView {
    pub pending: Option<PendingView>,
    pub phase: PhaseView,
}

impl View for Transfers {
    type V = TransfersView;

    open spec fn view(&self) -> TransfersView {
        TransfersView {
            pending: match self.pending {
                Some(p) => Some(p@),
                None => None,
            },
            phase: self.phase@,
        }
    }
}

/// The state in `phase` with `pending` waiting.
pub open spec fn state(pending: Option<PendingView>, phase: PhaseView) -> TransfersView {
    TransfersView { pending, phase }
}

/// Between two commands: while a request waits for a report, wait for either a
/// report or a command; otherwise read the next command.
pub open spec fn resume(pending: Option<PendingView>) -> (TransfersView, TransferActionView) {
    if pending is Some {
        (state(pending, PhaseView::Arrival), TransferActionView::Wait)
    } else {
        (state(pending, PhaseView::Command), TransferActionView::ReadCommand)
    }
}

/// Send `reply` and go on with `pending` waiting.
pub open spec fn deliver(pending: Option<PendingView>, reply: Seq<u8>) -> (
    TransfersView,
    TransferActionView,
) {
    (state(pending, PhaseView::Delivery), TransferActionView::Send(reply))
}

/// The end of the conversation.
pub open spec fn stop(pending: Option<PendingView>) -> (TransfersView, TransferActionView) {
    (state(pending, PhaseView::Over), TransferActionView::Stop)
}

/// The device that takes part in a conversation.
pub struct DeviceView {
    pub vid: u16,
    pub pid: u16,
    pub name: Seq<char>,
}

/// The reply to a submitted command, echoing its identification.
pub open spec fn echo(h: HeaderView, data: Seq<u8>) -> Seq<u8> {
    ret_submit(h.seqnum, h.devid, h.direction, h.ep, h.setup, data)
}

/// A submitted command, once its data has been read. A control request is
/// answered at once. A request for a report is served from the queue, unless
/// one waits already: then it is passed over, as is anything else. Otherwise
/// the command is answered with no data.
pub open spec fn on_submit(pending: Option<PendingView>, h: HeaderView, dev: DeviceView) -> (
    TransfersView,
    TransferActionView,
) {
    if h.ep == 0 {
        deliver(pending, echo(h, control_response(h.setup, dev.vid, dev.pid, dev.name)))
    } else if pending is Some {
        resume(pending)
    } else if h.ep == 1 && h.direction == 1 {
        (state(pending, PhaseView::ReportFor(h)), TransferActionView::TakeReport)
    } else {
        deliver(pending, echo(h, seq![]))
    }
}

/// A command. One that cancels another is confirmed, and if the request that
/// waits is the one it names, that request is dropped.
pub open spec fn on_command(pending: Option<PendingView>, h: HeaderView, dev: DeviceView) -> (
    TransfersView,
    TransferActionView,
) {
    if h.command == USBIP_CMD_SUBMIT {
        if h.direction == 0 && h.length > 0 {
            (state(pending, PhaseView::Body(h)), TransferActionView::SkipBody(h.length))
        } else {
            on_submit(pending, h, dev)
        }
    } else if h.command == USBIP_CMD_UNLINK {
        let kept = match pending {
            Some(p) => if p.seqnum == h.target {
                None
            } else {
                pending
            },
            None => pending,
        };
        deliver(kept, ret_unlink(h.seqnum, h.devid, h.direction, h.ep))
    } else {
        stop(pending)
    }
}

/// One step of the conversation. What does not answer the last action ends it,
/// as does a failure to read or send.
pub open spec fn transfer(st: TransfersView, event: TransferEventView, dev: DeviceView) -> (
    TransfersView,
    TransferActionView,
) {
    match (st.phase, event) {
        (PhaseView::Command, TransferEventView::Command(h)) => on_command(
            st.pending,
            header_of(h),
            dev,
        ),
        (PhaseView::Arrival, TransferEventView::Interrupted) => resume(st.pending),
        (PhaseView::Arrival, TransferEventView::Arrival { notified, readable }) => if notified {
            (state(st.pending, PhaseView::ReportForPending), TransferActionView::ClearAndTakeReport)
        } else if readable {
            (state(st.pending, PhaseView::Command), TransferActionView::ReadCommand)
        } else {
            resume(st.pending)
        },
        (PhaseView::Body(h), TransferEventView::BodyRead) => on_submit(st.pending, h, dev),
        (PhaseView::ReportFor(h), TransferEventView::Report(Some(r))) => deliver(
            st.pending,
            echo(h, r),
        ),
        (PhaseView::ReportFor(h), TransferEventView::Report(None)) => resume(
            Some(PendingView { seqnum: h.seqnum, devid: h.devid, setup: h.setup }),
        ),
        (PhaseView::ReportForPending, TransferEventView::Report(r)) => match (st.pending, r) {
            (Some(p), Some(report)) => deliver(
                None,
                ret_submit(p.seqnum, p.devid, 1, 1, p.setup, report),
            ),
            _ => resume(st.pending),
        },
        (PhaseView::Delivery, TransferEventView::Sent) => resume(st.pending),
        _ => stop(st.pending),
    }
}

/// The first step: read a command, with nothing waiting.
pub open spec fn opening() -> (TransfersView, TransferActionView) {
    resume(None)
}

impl Transfers {
    fn resume(pending: Option<PendingEp1In>) -> (r: (Transfers, TransferAction))
        ensures
            (r.0@, r.1@) == resume((Transfers { pending, phase: Phase::Over })@.pending),
    {
        if pending.is_some() {
            (Transfers { pending, phase: Phase::Arrival }, TransferAction::Wait)
        } else {
            (Transfers { pending, phase: Phase::Command }, TransferAction::ReadCommand)
        }
    }

    /// The first step of a conversation.
    pub fn start() -> (r: (Transfers, TransferAction))
        ensures
            (r.0@, r.1@) == opening(),
    {
        Transfers::resume(None)
    }

    fn submit(self, h: Header, vid: u16, pid: u16, name: &str) -> (r: (Transfers, TransferAction))
        ensures
            (r.0@, r.1@) == on_submit(self@.pending, h@, DeviceView { vid, pid, name: name@ }),
    {
        let pending = self.pending;
        if h.ep == 0 {
            let data = handle_control_request(&h.setup, vid, pid, name);
            (
                Transfers { pending, phase: Phase::Delivery },
                TransferAction::Send(
                    build_ret_submit(h.seqnum, h.devid, h.direction, h.ep, &h.setup, data.as_slice()),
                ),
            )
        } else if pending.is_some() {
            Transfers::resume(pending)
        } else if h.ep == 1 && h.direction == 1 {
            (Transfers { pending, phase: Phase::ReportFor(h) }, TransferAction::TakeReport)
        } else {
            let none: Vec<u8> = Vec::new();
            assert(none@ =~= seq![]);
            (
                Transfers { pending, phase: Phase::Delivery },
                TransferAction::Send(
                    build_ret_submit(h.seqnum, h.devid, h.direction, h.ep, &h.setup, none.as_slice()),
                ),
            )
        }
    }

    fn command(self, h: Header, vid: u16, pid: u16, name: &str) -> (r: (Transfers, TransferAction))
        ensures
            (r.0@, r.1@) == on_command(self@.pending, h@, DeviceView { vid, pid, name: name@ }),
    {
        if h.command == USBIP_CMD_SUBMIT {
            if h.direction == 0 && h.length > 0 {
                (
                    Transfers { pending: self.pending, phase: Phase::Body(h) },
                    TransferAction::SkipBody(h.length),
                )
            } else {
                self.submit(h, vid, pid, name)
            }
        } else if h.command == USBIP_CMD_UNLINK {
            let kept = match self.pending {
                Some(p) => if p.seqnum == h.target {
                    None
                } else {
                    Some(p)
                },
                None => None,
            };
            (
                Transfers { pending: kept, phase: Phase::Delivery },
                TransferAction::Send(build_ret_unlink(h.seqnum, h.devid, h.direction, h.ep)),
            )
        } else {
            (Transfers { pending: self.pending, phase: Phase::Over }, TransferAction::Stop)
        }
    }

    /// One step of the conversation with the device `name`.
    pub fn handle(self, event: TransferEvent, vid: u16, pid: u16, name: &str) -> (r: (
        Transfers,
        TransferAction,
    ))
        ensures
            (r.0@, r.1@) == transfer(self@, event@, DeviceView { vid, pid, name: name@ }),
    {
        let pending = self.pending;
        match (self.phase, event) {
            (Phase::Command, TransferEvent::Command(bytes)) => self.command(
                read_header(&bytes),
                vid,
                pid,
                name,
            ),
            (Phase::Arrival, TransferEvent::Interrupted) => Transfers::resume(pending),
            (Phase::Arrival, TransferEvent::Arrival { notified, readable }) => if notified {
                (
                    Transfers { pending, phase: Phase::ReportForPending },
                    TransferAction::ClearAndTakeReport,
                )
            } else if readable {
                (Transfers { pending, phase: Phase::Command }, TransferAction::ReadCommand)
            } else {
                Transfers::resume(pending)
            },
            (Phase::Body(h), TransferEvent::BodyRead) => self.submit(h, vid, pid, name),
            (Phase::ReportFor(h), TransferEvent::Report(Some(report))) => (
                Transfers { pending, phase: Phase::Delivery },
                TransferAction::Send(
                    build_ret_submit(
                        h.seqnum,
                        h.devid,
                        h.direction,
                        h.ep,
                        &h.setup,
                        report.as_slice(),
                    ),
                ),
            ),
            (Phase::ReportFor(h), TransferEvent::Report(None)) => Transfers::resume(
                Some(PendingEp1In { seqnum: h.seqnum, devid: h.devid, setup: h.setup }),
            ),
            (Phase::ReportForPending, TransferEvent::Report(r)) => match (pending, r) {
                (Some(p), Some(report)) => (
                    Transfers { pending: None, phase: Phase::Delivery },
                    TransferAction::Send(
                        build_ret_submit(p.seqnum, p.devid, 1, 1, &p.setup, report.as_slice()),
                    ),
                ),
                _ => Transfers::resume(pending),
            },
            (Phase::Delivery, TransferEvent::Sent) => Transfers::resume(pending),
            _ => (Transfers { pending, phase: Phase::Over }, TransferAction::Stop),
        }
    }
}

// ---------------------------------------------------------------------------
// Laws of the conversation
// ---------------------------------------------------------------------------

/// A request waits while the conversation waits for an arrival or for a report
/// for it; none waits while a report is looked up for a new request, which is
/// then one for endpoint 1 towards the host; and only a submitted command from
/// the host has data to be read.
pub open spec fn consistent(st: TransfersView) -> bool {
    &&& st.pending matches Some(p) ==> p.setup.len() == 8
    &&& match st.phase {
        PhaseView::Arrival => st.pending is Some,
        PhaseView::ReportForPending => st.pending is Some,
        PhaseView::ReportFor(h) => {
            &&& st.pending is None
            &&& h.command == USBIP_CMD_SUBMIT
            &&& h.ep == 1
            &&& h.direction == 1
            &&& h.setup.len() == 8
        },
        PhaseView::Body(h) => {
            &&& h.command == USBIP_CMD_SUBMIT
            &&& h.direction == 0
            &&& h.length > 0
            &&& h.setup.len() == 8
        },
        _ => true,
    }
}

/// A command has 48 bytes, and a report 8.
pub open spec fn well_sized(event: TransferEventView) -> bool {
    match event {
        TransferEventView::Command(h) => h.len() == 48,
        TransferEventView::Report(Some(r)) => r.len() == 8,
        _ => true,
    }
}

/// The state after the given events.
pub open spec fn after(events: Seq<TransferEventView>, dev: DeviceView) -> TransfersView
    decreases events.len(),
{
    if events.len() == 0 {
        opening().0
    } else {
        transfer(after(events.drop_last(), dev), events.last(), dev).0
    }
}

/// Every state that a conversation can reach is consistent.
pub proof fn law_conversation_consistent(events: Seq<TransferEventView>, dev: DeviceView)
    requires
        forall|i: int| 0 <= i < events.len() ==> well_sized(#[trigger] events[i]),
    ensures
        consistent(after(events, dev)),
    decreases events.len(),
{
    if events.len() > 0 {
        let before = events.drop_last();
        assert forall|i: int| 0 <= i < before.len() implies well_sized(#[trigger] before[i]) by {
            assert(before[i] == events[i]);
        }
        law_conversation_consistent(before, dev);
        assert(well_sized(events[events.len() - 1]));
    }
}

/// A request that waits keeps waiting until it is answered with a report or
/// the host cancels it by its number.
pub proof fn law_waiting_request_is_kept(
    st: TransfersView,
    event: TransferEventView,
    dev: DeviceView,
)
    requires
        consistent(st),
        st.pending is Some,
    ensures
        ({
            let p = st.pending->0;
            let (next, action) = transfer(st, event, dev);
            ||| next.pending == Some(p)
            ||| {
                &&& next.pending is None
                &&& event matches TransferEventView::Report(Some(r))
                &&& action == TransferActionView::Send(
                    ret_submit(p.seqnum, p.devid, 1, 1, p.setup, r),
                )
            }
            ||| {
                &&& next.pending is None
                &&& event matches TransferEventView::Command(h)
                &&& header_of(h).command == USBIP_CMD_UNLINK
                &&& header_of(h).target == p.seqnum
            }
        }),
{
}

/// No report that is taken from the queue is lost: the next action sends it,
/// at the end of a reply to a request for a report.
pub proof fn law_report_is_sent(st: TransfersView, report: Seq<u8>, dev: DeviceView)
    requires
        consistent(st),
        st.phase is ReportFor || st.phase is ReportForPending,
        report.len() == 8,
    ensures
        ({
            let (next, action) = transfer(st, TransferEventView::Report(Some(report)), dev);
            &&& next.pending is None
            &&& action matches TransferActionView::Send(reply)
            &&& reply.len() == 56
            &&& reply.skip(48) == report
            &&& word32(reply, 0) == USBIP_RET_SUBMIT
            &&& word32(reply, 12) == 1
            &&& word32(reply, 16) == 1
            &&& word32(reply, 24) == 8
        }),
{
    let (next, action) = transfer(st, TransferEventView::Report(Some(report)), dev);
    let (seqnum, devid, setup) = match st.phase {
        PhaseView::ReportFor(h) => (h.seqnum, h.devid, h.setup),
        _ => (st.pending->0.seqnum, st.pending->0.devid, st.pending->0.setup),
    };
    assert(action == TransferActionView::Send(ret_submit(seqnum, devid, 1, 1, setup, report)));
    lemma_ret_submit_identification(seqnum, devid, 1, 1, setup, report);
    lemma_ret_submit_length(seqnum, devid, 1, 1, setup, report);
    lemma_ret_submit_data(seqnum, devid, 1, 1, setup, report);
}

/// A request for a report that finds the queue empty waits under its own
/// number.
pub proof fn law_request_waits_for_a_report(st: TransfersView, dev: DeviceView)
    requires
        consistent(st),
        st.phase is ReportFor,
    ensures
        ({
            let h = st.phase->ReportFor_0;
            let (next, action) = transfer(st, TransferEventView::Report(None), dev);
            &&& next.pending == Some(
                PendingView { seqnum: h.seqnum, devid: h.devid, setup: h.setup },
            )
            &&& action == TransferActionView::Wait
        }),
{
}

proof fn lemma_word_kept(a: Seq<u8>, b: Seq<u8>, i: int)
    requires
        0 <= i,
        i + 4 <= a.len(),
    ensures
        word32(a + b, i) == word32(a, i),
{
}

/// The words that a reply begins with, whatever follows.
proof fn lemma_identification(
    command: u32,
    seqnum: u32,
    devid: u32,
    direction: u32,
    ep: u32,
    rest: Seq<u8>,
)
    ensures
        ({
            let reply = identification(command, seqnum, devid, direction, ep) + rest;
            &&& reply.len() == 20 + rest.len()
            &&& word32(reply, 0) == command
            &&& word32(reply, 4) == seqnum
            &&& word32(reply, 8) == devid
            &&& word32(reply, 12) == direction
            &&& word32(reply, 16) == ep
        }),
{
    let none = Seq::<u8>::empty();
    let one = be32(command);
    let two = one + be32(seqnum);
    let three = two + be32(devid);
    let four = three + be32(direction);
    let five = four + be32(ep);
    assert(none + one + be32(seqnum) =~= two);
    law_be32_round_trip(none, command, be32(seqnum));
    lemma_word_kept(two, be32(devid), 0);
    lemma_word_kept(three, be32(direction), 0);
    lemma_word_kept(four, be32(ep), 0);
    lemma_word_kept(five, rest, 0);
    law_be32_round_trip(one, seqnum, be32(devid));
    lemma_word_kept(three, be32(direction), 4);
    lemma_word_kept(four, be32(ep), 4);
    lemma_word_kept(five, rest, 4);
    law_be32_round_trip(two, devid, be32(direction));
    lemma_word_kept(four, be32(ep), 8);
    lemma_word_kept(five, rest, 8);
    law_be32_round_trip(three, direction, be32(ep));
    lemma_word_kept(five, rest, 12);
    law_be32_round_trip(four, ep, rest);
}

/// A reply to a submitted command, as what it begins with and the rest.
proof fn lemma_ret_submit_parts(
    seqnum: u32,
    devid: u32,
    direction: u32,
    ep: u32,
    setup: Seq<u8>,
    data: Seq<u8>,
)
    ensures
        ret_submit(seqnum, devid, direction, ep, setup, data) == identification(
            USBIP_RET_SUBMIT,
            seqnum,
            devid,
            direction,
            ep,
        ) + (be32(0) + be32((data.len() % 0x1_0000_0000) as u32) + be32(0) + be32(0) + be32(0)
            + setup + data),
{
    let head = identification(USBIP_RET_SUBMIT, seqnum, devid, direction, ep);
    let n = be32((data.len() % 0x1_0000_0000) as u32);
    let z = be32(0);
    assert(head + z + n =~= head + (z + n));
    assert(head + (z + n) + z =~= head + (z + n + z));
    assert(head + (z + n + z) + z =~= head + (z + n + z + z));
    assert(head + (z + n + z + z) + z =~= head + (z + n + z + z + z));
    assert(head + (z + n + z + z + z) + setup =~= head + (z + n + z + z + z + setup));
    assert(head + (z + n + z + z + z + setup) + data =~= head + (z + n + z + z + z + setup + data));
}

/// The reply to a submitted command begins with its identification.
proof fn lemma_ret_submit_identification(
    seqnum: u32,
    devid: u32,
    direction: u32,
    ep: u32,
    setup: Seq<u8>,
    data: Seq<u8>,
)
    ensures
        ({
            let reply = ret_submit(seqnum, devid, direction, ep, setup, data);
            &&& word32(reply, 0) == USBIP_RET_SUBMIT
            &&& word32(reply, 4) == seqnum
            &&& word32(reply, 8) == devid
            &&& word32(reply, 12) == direction
            &&& word32(reply, 16) == ep
        }),
{
    let n = be32((data.len() % 0x1_0000_0000) as u32);
    let z = be32(0);
    lemma_ret_submit_parts(seqnum, devid, direction, ep, setup, data);
    lemma_identification(
        USBIP_RET_SUBMIT,
        seqnum,
        devid,
        direction,
        ep,
        z + n + z + z + z + setup + data,
    );
}

/// The reply to a submitted command says how much data follows.
proof fn lemma_ret_submit_length(
    seqnum: u32,
    devid: u32,
    direction: u32,
    ep: u32,
    setup: Seq<u8>,
    data: Seq<u8>,
)
    ensures
        word32(ret_submit(seqnum, devid, direction, ep, setup, data), 24) == data.len()
            % 0x1_0000_0000,
{
    let n = (data.len() % 0x1_0000_0000) as u32;
    let z = be32(0);
    let before = identification(USBIP_RET_SUBMIT, seqnum, devid, direction, ep) + z;
    let told = before + be32(n) + z;
    law_be32_round_trip(before, n, z);
    lemma_word_kept(told, z, 24);
    lemma_word_kept(told + z, z, 24);
    lemma_word_kept(told + z + z, setup, 24);
    lemma_word_kept(told + z + z + setup, data, 24);
}

/// The reply to a submitted command ends in the setup bytes and the data.
proof fn lemma_ret_submit_data(
    seqnum: u32,
    devid: u32,
    direction: u32,
    ep: u32,
    setup: Seq<u8>,
    data: Seq<u8>,
)
    requires
        setup.len() == 8,
    ensures
        ({
            let reply = ret_submit(seqnum, devid, direction, ep, setup, data);
            &&& reply.len() == 48 + data.len()
            &&& reply.skip(48) == data
        }),
{
    let n = be32((data.len() % 0x1_0000_0000) as u32);
    let z = be32(0);
    let head = identification(USBIP_RET_SUBMIT, seqnum, devid, direction, ep) + z + n + z + z + z
        + setup;
    assert(head.len() == 48);
    assert((head + data).skip(48) =~= data);
}

/// The reply to a submitted command names that command, says how much data
/// follows its 48 bytes, and ends in that data.
pub proof fn law_reply_names_its_command(h: HeaderView, data: Seq<u8>)
    requires
        h.setup.len() == 8,
        data.len() < 0x1_0000_0000,
    ensures
        echo(h, data).len() == 48 + data.len(),
        word32(echo(h, data), 0) == USBIP_RET_SUBMIT,
        word32(echo(h, data), 4) == h.seqnum,
        word32(echo(h, data), 8) == h.devid,
        word32(echo(h, data), 12) == h.direction,
        word32(echo(h, data), 16) == h.ep,
        word32(echo(h, data), 24) == data.len(),
        echo(h, data).skip(48) == data,
{
    lemma_ret_submit_identification(h.seqnum, h.devid, h.direction, h.ep, h.setup, data);
    lemma_ret_submit_length(h.seqnum, h.devid, h.direction, h.ep, h.setup, data);
    lemma_ret_submit_data(h.seqnum, h.devid, h.direction, h.ep, h.setup, data);
}

/// The reply to a command that cancels another names that command and has 48
/// bytes.
pub proof fn law_unlink_reply_names_its_command(seqnum: u32, devid: u32, direction: u32, ep: u32)
    ensures
        ret_unlink(seqnum, devid, direction, ep).len() == 48,
        word32(ret_unlink(seqnum, devid, direction, ep), 0) == USBIP_RET_UNLINK,
        word32(ret_unlink(seqnum, devid, direction, ep), 4) == seqnum,
        word32(ret_unlink(seqnum, devid, direction, ep), 8) == devid,
{
    lemma_identification(USBIP_RET_UNLINK, seqnum, devid, direction, ep, zeros(28));
}

/// A control request is answered with the device's answer, at once or after the
/// data that comes with it has been read, whether or not a request waits for a
/// report, and does not disturb the latter.
pub proof fn law_control_request_answered(st: TransfersView, h: Seq<u8>, dev: DeviceView)
    requires
        st.phase is Command,
        header_of(h).command == USBIP_CMD_SUBMIT,
        header_of(h).ep == 0,
    ensures
        ({
            let head = header_of(h);
            let answer = deliver(
                st.pending,
                echo(head, control_response(head.setup, dev.vid, dev.pid, dev.name)),
            );
            let (next, action) = transfer(st, TransferEventView::Command(h), dev);
            if head.direction == 0 && head.length > 0 {
                &&& action == TransferActionView::SkipBody(head.length)
                &&& transfer(next, TransferEventView::BodyRead, dev) == answer
            } else {
                (next, action) == answer
            }
        }),
{
}

// ---------------------------------------------------------------------------
// The reports of a whole conversation
// ---------------------------------------------------------------------------

/// What happens while a conversation goes on: reports are put at the end of
/// the queue, or the conversation meets an event.
pub enum Occurrence {
    Queued(Seq<Seq<u8>>),
    Met(TransferEventView),
}

/// How far a conversation has come: its state, the action it asks for, the
/// reports in the queue, those that it has asked to send, and those of them
/// that have been written.
pub struct Course {
    pub state: TransfersView,
    pub action: TransferActionView,
    pub queue: Seq<Seq<u8>>,
    pub sent: Seq<Seq<u8>>,
    pub written: Seq<Seq<u8>>,
}

/// The data of the reply that an action sends, if that is a reply to a request
/// for a report: a submitted command for endpoint 1 towards the host.
pub open spec fn carried(action: TransferActionView) -> Option<Seq<u8>> {
    match action {
        TransferActionView::Send(reply) => if word32(reply, 0) == USBIP_RET_SUBMIT && word32(
            reply,
            12,
        ) == 1 && word32(reply, 16) == 1 {
            Some(reply.skip(48))
        } else {
            None
        },
        _ => None,
    }
}

/// `reports`, and the data that `action` carries, if it does.
pub open spec fn and_carried(reports: Seq<Seq<u8>>, action: TransferActionView) -> Seq<Seq<u8>> {
    match carried(action) {
        Some(report) => reports.push(report),
        None => reports,
    }
}

/// The conversation one event further.
pub open spec fn met(c: Course, event: TransferEventView, dev: DeviceView) -> Course {
    let (state, action) = transfer(c.state, event, dev);
    Course {
        state,
        action,
        queue: if event matches TransferEventView::Report(Some(_)) {
            c.queue.drop_first()
        } else {
            c.queue
        },
        sent: and_carried(c.sent, action),
        written: if event is Sent {
            and_carried(c.written, c.action)
        } else {
            c.written
        },
    }
}

/// How far a conversation has come that began with `entry` in the queue.
pub open spec fn course(
    entry: Seq<Seq<u8>>,
    occurrences: Seq<Occurrence>,
    dev: DeviceView,
) -> Course
    decreases occurrences.len(),
{
    if occurrences.len() == 0 {
        Course {
            state: opening().0,
            action: opening().1,
            queue: entry,
            sent: seq![],
            written: seq![],
        }
    } else {
        let c = course(entry, occurrences.drop_last(), dev);
        match occurrences.last() {
            Occurrence::Queued(reports) => Course { queue: c.queue + reports, ..c },
            Occurrence::Met(event) => met(c, event, dev),
        }
    }
}

/// Each report has 8 bytes.
pub open spec fn whole(reports: Seq<Seq<u8>>) -> bool {
    forall|i: int| 0 <= i < reports.len() ==> (#[trigger] reports[i]).len() == 8
}

/// What can happen next: whole reports are queued; a command has 48 bytes; and
/// what is met as the queue's answer is what `ReportQueue::take` gives, once
/// the conversation has asked for it.
pub open spec fn can_happen(c: Course, next: Occurrence) -> bool {
    match next {
        Occurrence::Queued(reports) => whole(reports),
        Occurrence::Met(TransferEventView::Command(h)) => h.len() == 48,
        Occurrence::Met(TransferEventView::Report(r)) => {
            &&& c.action is TakeReport || c.action is ClearAndTakeReport
            &&& r == (if c.queue.len() > 0 {
                Some(c.queue[0])
            } else {
                None
            })
        },
        Occurrence::Met(_) => true,
    }
}

/// All of `occurrences` can happen, one after the other.
pub open spec fn all_can_happen(
    entry: Seq<Seq<u8>>,
    occurrences: Seq<Occurrence>,
    dev: DeviceView,
) -> bool
    decreases occurrences.len(),
{
    occurrences.len() > 0 ==> {
        &&& all_can_happen(entry, occurrences.drop_last(), dev)
        &&& can_happen(course(entry, occurrences.drop_last(), dev), occurrences.last())
    }
}

/// All reports that are queued while a conversation goes on, in order.
pub open spec fn queued(occurrences: Seq<Occurrence>) -> Seq<Seq<u8>>
    decreases occurrences.len(),
{
    if occurrences.len() == 0 {
        seq![]
    } else {
        match occurrences.last() {
            Occurrence::Queued(reports) => queued(occurrences.drop_last()) + reports,
            Occurrence::Met(_) => queued(occurrences.drop_last()),
        }
    }
}

/// Over a whole conversation, whatever happens, the reports that the host is
/// sent are those that were queued, in order: none is skipped, repeated,
/// reordered or made up, and what has not been sent is still in the queue. What
/// has been written is what was sent, but for one report at most: the one that
/// is being written, or the one whose writing failed and ended the
/// conversation.
pub proof fn law_reports_go_out_in_order(
    entry: Seq<Seq<u8>>,
    occurrences: Seq<Occurrence>,
    dev: DeviceView,
)
    requires
        whole(entry),
        all_can_happen(entry, occurrences, dev),
    ensures
        ({
            let c = course(entry, occurrences, dev);
            &&& c.sent + c.queue == entry + queued(occurrences)
            &&& whole(c.sent)
            &&& c.written == c.sent || (c.sent.len() > 0 && c.written == c.sent.drop_last() && (
            carried(c.action) is Some || c.action is Stop))
        }),
{
    lemma_course(entry, occurrences, dev);
}

/// The phase of a conversation fits the action that it asks for.
spec fn fits(phase: PhaseView, action: TransferActionView) -> bool {
    match phase {
        PhaseView::Command => action is ReadCommand,
        PhaseView::Arrival => action is Wait,
        PhaseView::Body(_) => action is SkipBody,
        PhaseView::ReportFor(_) => action is TakeReport,
        PhaseView::ReportForPending => action is ClearAndTakeReport,
        PhaseView::Delivery => action is Send,
        PhaseView::Over => action is Stop,
    }
}

/// What has been written is what was sent before the present action, or, at
/// the end, but for the last report.
spec fn in_step(c: Course) -> bool {
    match carried(c.action) {
        Some(report) => c.sent == c.written.push(report),
        None => {
            ||| c.sent == c.written
            ||| c.action is Stop && c.sent.len() > 0 && c.written == c.sent.drop_last()
        },
    }
}

/// One event further, what was sent and what is queued are together as before.
proof fn lemma_met(c: Course, event: TransferEventView, next: Course)
    requires
        in_step(c),
        whole(c.queue),
        whole(c.sent),
        can_happen(c, Occurrence::Met(event)),
        event is Report ==> carried(next.action) == event->Report_0,
        !(event is Report) ==> carried(next.action) is None,
        c.action is Send && !(event is Sent) ==> next.action is Stop,
        c.action is Stop ==> next.action is Stop,
        next.queue == (if event matches TransferEventView::Report(Some(_)) {
            c.queue.drop_first()
        } else {
            c.queue
        }),
        next.sent == and_carried(c.sent, next.action),
        next.written == (if event is Sent {
            and_carried(c.written, c.action)
        } else {
            c.written
        }),
    ensures
        in_step(next),
        whole(next.queue),
        whole(next.sent),
        next.sent + next.queue == c.sent + c.queue,
{
    match event {
        TransferEventView::Report(Some(report)) => {
            assert(c.sent.push(report) + c.queue.drop_first() =~= c.sent + c.queue);
        },
        _ => {
            if let Some(report) = carried(c.action) {
                assert(c.sent.drop_last() =~= c.written);
            }
        },
    }
}

proof fn lemma_course(entry: Seq<Seq<u8>>, occurrences: Seq<Occurrence>, dev: DeviceView)
    requires
        whole(entry),
        all_can_happen(entry, occurrences, dev),
    ensures
        ({
            let c = course(entry, occurrences, dev);
            &&& consistent(c.state)
            &&& fits(c.state.phase, c.action)
            &&& in_step(c)
            &&& whole(c.queue)
            &&& whole(c.sent)
            &&& c.sent + c.queue == entry + queued(occurrences)
        }),
    decreases occurrences.len(),
{
    if occurrences.len() == 0 {
        assert(Seq::<Seq<u8>>::empty() + entry =~= entry + Seq::<Seq<u8>>::empty());
    } else {
        let before = occurrences.drop_last();
        let c = course(entry, before, dev);
        lemma_course(entry, before, dev);
        match occurrences.last() {
            Occurrence::Queued(reports) => {
                assert(c.sent + (c.queue + reports) =~= c.sent + c.queue + reports);
                assert(entry + (queued(before) + reports) =~= entry + queued(before) + reports);
            },
            Occurrence::Met(event) => {
                lemma_carried(c.state, event, dev);
                lemma_met(c, event, met(c, event, dev));
            },
        }
    }
}

/// A step of the conversation carries a report exactly if it was given one to
/// send, and then that one.
proof fn lemma_carried(st: TransfersView, event: TransferEventView, dev: DeviceView)
    requires
        consistent(st),
        well_sized(event),
        event is Report ==> st.phase is ReportFor || st.phase is ReportForPending,
    ensures
        consistent(transfer(st, event, dev).0),
        fits(transfer(st, event, dev).0.phase, transfer(st, event, dev).1),
        st.phase is Delivery && !(event is Sent) ==> transfer(st, event, dev).1 is Stop,
        st.phase is Over ==> transfer(st, event, dev).1 is Stop,
        carried(transfer(st, event, dev).1) == (if event is Report {
            event->Report_0
        } else {
            None
        }),
{
    match (st.phase, event) {
        (PhaseView::Command, TransferEventView::Command(h)) => {
            lemma_command_carries_none(st.pending, header_of(h), dev);
        },
        (PhaseView::Body(h), TransferEventView::BodyRead) => {
            lemma_submit_carries_none(st.pending, h, dev);
        },
        (PhaseView::ReportFor(h), TransferEventView::Report(Some(r))) => {
            lemma_ret_submit_identification(h.seqnum, h.devid, h.direction, h.ep, h.setup, r);
            lemma_ret_submit_data(h.seqnum, h.devid, h.direction, h.ep, h.setup, r);
        },
        (PhaseView::ReportForPending, TransferEventView::Report(Some(r))) => {
            let p = st.pending->0;
            lemma_ret_submit_identification(p.seqnum, p.devid, 1, 1, p.setup, r);
            lemma_ret_submit_data(p.seqnum, p.devid, 1, 1, p.setup, r);
        },
        _ => {},
    }
}

proof fn lemma_submit_carries_none(pending: Option<PendingView>, h: HeaderView, dev: DeviceView)
    ensures
        carried(on_submit(pending, h, dev).1) is None,
{
    let answer = control_response(h.setup, dev.vid, dev.pid, dev.name);
    lemma_ret_submit_identification(h.seqnum, h.devid, h.direction, h.ep, h.setup, answer);
    lemma_ret_submit_identification(h.seqnum, h.devid, h.direction, h.ep, h.setup, seq![]);
}

proof fn lemma_command_carries_none(pending: Option<PendingView>, h: HeaderView, dev: DeviceView)
    ensures
        carried(on_command(pending, h, dev).1) is None,
{
    lemma_submit_carries_none(pending, h, dev);
    law_unlink_reply_names_its_command(h.seqnum, h.devid, h.direction, h.ep);
}

// ---------------------------------------------------------------------------
// The bytes of the conversation
// ---------------------------------------------------------------------------

/// A reply to a submitted command, byte by byte: the code three, the
/// identification of the command as it was sent, no status, the length of the
/// data, zeros, the setup bytes of the command as they were sent, and the data.
pub open spec fn answers_submit(reply: Seq<u8>, h: Seq<u8>, data: Seq<u8>) -> bool {
    &&& reply.len() == 48 + data.len()
    &&& reply.take(4) == seq![0u8, 0, 0, 3]
    &&& reply.subrange(4, 20) == h.subrange(4, 20)
    &&& reply.subrange(20, 24) == zeros(4)
    &&& word32(reply, 24) == data.len()
    &&& reply.subrange(28, 40) == zeros(12)
    &&& reply.subrange(40, 48) == h.subrange(40, 48)
    &&& reply.skip(48) == data
}

proof fn lemma_bytes_of_word(a: u8, b: u8, c: u8, d: u8, n: u32)
    requires
        n == a * 0x100_0000 + b * 0x1_0000 + c * 256 + d,
    ensures
        n / 0x100_0000 == a,
        n / 0x1_0000 % 256 == b,
        n / 256 % 256 == c,
        n % 256 == d,
{
    let high: int = a * 256 + b;
    let most: int = high * 256 + c;
    assert(n == most * 256 + d);
    assert(n == high * 0x1_0000 + (c * 256 + d));
    assert(n / 256 == most);
    assert(n / 0x1_0000 == high);
}

proof fn lemma_be32_of_word(h: Seq<u8>, i: int)
    requires
        0 <= i,
        i + 4 <= h.len(),
    ensures
        be32(word32(h, i) as u32) == h.subrange(i, i + 4),
{
    let n = word32(h, i) as u32;
    lemma_bytes_of_word(h[i], h[i + 1], h[i + 2], h[i + 3], n);
    assert(be32(n) =~= h.subrange(i, i + 4));
}

/// The identification of a command is sent back as it came.
proof fn lemma_identification_bytes(code: u32, h: Seq<u8>)
    requires
        h.len() == 48,
    ensures
        identification(
            code,
            header_of(h).seqnum,
            header_of(h).devid,
            header_of(h).direction,
            header_of(h).ep,
        ) == be32(code) + h.subrange(4, 20),
{
    lemma_be32_of_word(h, 4);
    lemma_be32_of_word(h, 8);
    lemma_be32_of_word(h, 12);
    lemma_be32_of_word(h, 16);
    let id = h.subrange(4, 20);
    assert(h.subrange(4, 8) + h.subrange(8, 12) + h.subrange(12, 16) + h.subrange(16, 20) =~= id);
    let a = be32(code);
    let parts = h.subrange(4, 8) + h.subrange(8, 12) + h.subrange(12, 16) + h.subrange(16, 20);
    assert(a + h.subrange(4, 8) + h.subrange(8, 12) + h.subrange(12, 16) + h.subrange(16, 20)
        =~= a + parts);
}

#[verifier::spinoff_prover]
proof fn lemma_echo_bytes(h: Seq<u8>, data: Seq<u8>)
    requires
        h.len() == 48,
        data.len() < 0x1_0000_0000,
    ensures
        answers_submit(echo(header_of(h), data), h, data),
{
    let head = header_of(h);
    lemma_identification_bytes(USBIP_RET_SUBMIT, h);
    lemma_ret_submit_length(head.seqnum, head.devid, head.direction, head.ep, head.setup, data);
    lemma_ret_submit_data(head.seqnum, head.devid, head.direction, head.ep, head.setup, data);
    let id = be32(USBIP_RET_SUBMIT) + h.subrange(4, 20);
    let n = be32((data.len() % 0x1_0000_0000) as u32);
    let reply = echo(head, data);
    assert(be32(USBIP_RET_SUBMIT) =~= seq![0u8, 0, 0, 3]);
    assert(reply == id + be32(0) + n + be32(0) + be32(0) + be32(0) + head.setup + data);
    assert(id.len() == 20);
    assert(reply.take(4) =~= be32(USBIP_RET_SUBMIT));
    assert(reply.subrange(4, 20) =~= h.subrange(4, 20));
    assert(reply.subrange(20, 24) =~= zeros(4));
    assert(reply.subrange(28, 40) =~= zeros(12));
    assert(reply.subrange(40, 48) =~= h.subrange(40, 48));
}

/// A submitted command without data of its own is answered, byte by byte: one
/// for the control endpoint with the device's answer to its setup bytes; one for
/// another endpoint, if nothing waits, with no data, unless it asks for a report:
/// then one is taken from the queue.
pub proof fn law_submit_bytes(st: TransfersView, h: Seq<u8>, dev: DeviceView)
    requires
        st.phase is Command,
        h.len() == 48,
        word32(h, 0) == 1,
        word32(h, 12) != 0 || word32(h, 24) == 0,
    ensures
        ({
            let (next, action) = transfer(st, TransferEventView::Command(h), dev);
            let answer = control_response(h.subrange(40, 48), dev.vid, dev.pid, dev.name);
            let ep = word32(h, 16);
            let asks_report = ep == 1 && word32(h, 12) == 1;
            &&& next.pending == st.pending
            &&& ep == 0 && answer.len() < 0x1_0000_0000 ==> (action matches
                TransferActionView::Send(reply) && answers_submit(reply, h, answer))
            &&& ep != 0 && st.pending is Some ==> action is Wait
            &&& ep != 0 && st.pending is None && asks_report ==> action is TakeReport
            &&& ep != 0 && st.pending is None && !asks_report ==> (action matches
                TransferActionView::Send(reply) && answers_submit(reply, h, seq![]))
        }),
{
    let answer = control_response(h.subrange(40, 48), dev.vid, dev.pid, dev.name);
    if answer.len() < 0x1_0000_0000 {
        lemma_echo_bytes(h, answer);
    }
    lemma_echo_bytes(h, seq![]);
}

/// A submitted command with data of its own has that read and dropped first, all
/// of it, and is then answered as one without.
pub proof fn law_submit_with_data(st: TransfersView, h: Seq<u8>, dev: DeviceView)
    requires
        st.phase is Command,
        h.len() == 48,
        word32(h, 0) == 1,
        word32(h, 12) == 0,
        word32(h, 24) > 0,
    ensures
        ({
            let (next, action) = transfer(st, TransferEventView::Command(h), dev);
            let (after, answer) = transfer(next, TransferEventView::BodyRead, dev);
            let data = control_response(h.subrange(40, 48), dev.vid, dev.pid, dev.name);
            &&& action == TransferActionView::SkipBody(word32(h, 24) as u32)
            &&& next.pending == st.pending && after.pending == st.pending
            &&& word32(h, 16) == 0 && data.len() < 0x1_0000_0000 ==> (answer matches
                TransferActionView::Send(reply) && answers_submit(reply, h, data))
            &&& word32(h, 16) != 0 && st.pending is Some ==> answer is Wait
            &&& word32(h, 16) != 0 && st.pending is None ==> (answer matches
                TransferActionView::Send(reply) && answers_submit(reply, h, seq![]))
        }),
{
    let data = control_response(h.subrange(40, 48), dev.vid, dev.pid, dev.name);
    if data.len() < 0x1_0000_0000 {
        lemma_echo_bytes(h, data);
    }
    lemma_echo_bytes(h, seq![]);
}

/// A request for a report, when nothing waits, is answered with the report that
/// the queue gives, byte by byte. If it gives none, the request waits, and is
/// answered in the same way with the next report that is noticed.
pub proof fn law_report_bytes(
    st: TransfersView,
    h: Seq<u8>,
    report: Seq<u8>,
    readable: bool,
    dev: DeviceView,
)
    requires
        st.phase is Command,
        st.pending is None,
        h.len() == 48,
        word32(h, 0) == 1,
        word32(h, 12) == 1,
        word32(h, 16) == 1,
        report.len() == 8,
    ensures
        ({
            let (taking, _) = transfer(st, TransferEventView::Command(h), dev);
            let (_, at_once) = transfer(taking, TransferEventView::Report(Some(report)), dev);
            let (waiting, wait) = transfer(taking, TransferEventView::Report(None), dev);
            let (noticed, take) = transfer(
                waiting,
                TransferEventView::Arrival { notified: true, readable },
                dev,
            );
            let (over, later) = transfer(noticed, TransferEventView::Report(Some(report)), dev);
            let (again, wait_again) = transfer(noticed, TransferEventView::Report(None), dev);
            &&& at_once matches TransferActionView::Send(reply) && answers_submit(reply, h, report)
            &&& wait is Wait
            &&& take is ClearAndTakeReport
            &&& later matches TransferActionView::Send(reply) && answers_submit(reply, h, report)
            &&& over.pending is None
            &&& wait_again is Wait
            &&& again == waiting
        }),
{
    lemma_echo_bytes(h, report);
}

/// A command that cancels another is confirmed with the code four, its own
/// identification as it was sent, and zeros. A request that waits is dropped if
/// it has the number that the command names, and kept otherwise.
pub proof fn law_unlink_bytes(st: TransfersView, h: Seq<u8>, dev: DeviceView)
    requires
        st.phase is Command,
        h.len() == 48,
        word32(h, 0) == 2,
    ensures
        ({
            let (next, action) = transfer(st, TransferEventView::Command(h), dev);
            &&& action == TransferActionView::Send(
                seq![0u8, 0, 0, 4] + h.subrange(4, 20) + zeros(28),
            )
            &&& st.pending matches Some(p) ==> next.pending == (if p.seqnum == word32(h, 20) {
                None
            } else {
                Some(p)
            })
            &&& st.pending is None ==> next.pending is None
        }),
{
    lemma_identification_bytes(USBIP_RET_UNLINK, h);
    assert(be32(USBIP_RET_UNLINK) =~= seq![0u8, 0, 0, 4]);
}

/// After a reply has been sent, the conversation goes on: with the next command,
/// or, while a request waits, with waiting. A command that arrives meanwhile is
/// read. What cannot be read or sent ends it, as does a command of another kind.
pub proof fn law_conversation_goes_on(
    st: TransfersView,
    event: TransferEventView,
    h: Seq<u8>,
    dev: DeviceView,
)
    requires
        h.len() == 48,
    ensures
        ({
            let (next, action) = transfer(st, event, dev);
            let (_, other) = transfer(st, TransferEventView::Command(h), dev);
            &&& st.phase is Delivery && event is Sent ==> next.pending == st.pending && (if st.pending
                is Some {
                action is Wait
            } else {
                action is ReadCommand
            })
            &&& st.phase is Arrival && event == (TransferEventView::Arrival {
                notified: false,
                readable: true,
            }) ==> action is ReadCommand && next.pending == st.pending
            &&& event is Broken ==> action is Stop
            &&& st.phase is Command && word32(h, 0) != 1 && word32(h, 0) != 2 ==> other is Stop
        }),
{
}

/// A conversation begins by reading a command, with no request that waits. A wait
/// that was cut short, or that nothing came of, is taken up again.
pub proof fn law_waiting_is_taken_up_again(st: TransfersView, dev: DeviceView)
    ensures
        opening().0.pending is None,
        opening().0.phase is Command,
        opening().1 is ReadCommand,
        st.phase is Arrival && st.pending is Some ==> {
            let (next, action) = transfer(st, TransferEventView::Interrupted, dev);
            let (same, again) = transfer(
                st,
                TransferEventView::Arrival { notified: false, readable: false },
                dev,
            );
            &&& next == st && action is Wait
            &&& same == st && again is Wait
        },
{
}

/// What was typed becomes reports if it is a text, and is passed over if it is
/// none.
pub proof fn law_only_text_becomes_reports(data: Seq<u8>, text: Seq<char>)
    ensures
        scan_reports(encode_utf8(text)) == reports_of(encode_utf8(text)),
        !valid_utf8(data) ==> scan_reports(data) == Seq::<Seq<u8>>::empty(),
{
    broadcast use encode_utf8_valid_utf8;

}

} // verus!
