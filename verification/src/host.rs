//! How an operation talks to the host it runs on.
//!
//! An operation is a function of the replies that the host has given so far. It
//! says what to ask the host next, or that it has ended, with a result or with
//! a failure. Whoever runs it performs each request, appends the reply to the
//! log, and calls the function again.

use vstd::prelude::*;
use vstd::string::*;

use crate::devices::{DriveView, HidDevice, HidView, VirtualDrive};

verus! {

// ---------------------------------------------------------------------------
// Lists
// ---------------------------------------------------------------------------

/// An empty list.
pub fn empty<T: DeepView>() -> (r: Vec<T>)
    ensures
        r.deep_view() == Seq::<T::V>::empty(),
{
    let v: Vec<T> = Vec::new();
    assert(v.deep_view() =~= Seq::<T::V>::empty());
    v
}

/// `v` with `x` at its end.
pub fn with<T: DeepView>(v: Vec<T>, x: T) -> (r: Vec<T>)
    ensures
        r.deep_view() == v.deep_view().push(x.deep_view()),
{
    let mut v = v;
    let ghost before = v.deep_view();
    v.push(x);
    assert(v.deep_view() =~= before.push(x.deep_view()));
    v
}

/// The list of one text.
pub fn words1(a: &str) -> (r: Vec<String>)
    ensures
        r.deep_view() == seq![a@],
{
    with(empty(), a.to_string())
}

/// `v` with the text `a` at its end.
pub fn word(v: Vec<String>, a: &str) -> (r: Vec<String>)
    ensures
        r.deep_view() == v.deep_view().push(a@),
{
    with(v, a.to_string())
}

/// The list of two texts.
pub fn words2(a: &str, b: &str) -> (r: Vec<String>)
    ensures
        r.deep_view() == seq![a@, b@],
{
    word(words1(a), b)
}

/// The list of three texts.
pub fn words3(a: &str, b: &str, c: &str) -> (r: Vec<String>)
    ensures
        r.deep_view() == seq![a@, b@, c@],
{
    word(words2(a, b), c)
}

/// The list of five texts.
pub fn words5(a: &str, b: &str, c: &str, d: &str, e: &str) -> (r: Vec<String>)
    ensures
        r.deep_view() == seq![a@, b@, c@, d@, e@],
{
    word(word(words3(a, b, c), d), e)
}

/// A list of the same texts.
pub fn copy_texts(v: &Vec<String>) -> (r: Vec<String>)
    ensures
        r.deep_view() == v.deep_view(),
{
    let r = v.clone();
    assert(r.deep_view() =~= v.deep_view());
    r
}

/// `x` before the elements of `v`.
pub fn prepended(x: String, v: Vec<String>) -> (r: Vec<String>)
    ensures
        r.deep_view() == seq![x@] + v.deep_view(),
{
    let mut r: Vec<String> = Vec::new();
    r.push(x);
    let mut i: usize = 0;
    while i < v.len()
        invariant
            i <= v.len(),
            r.len() == i + 1,
            r@[0]@ == x@,
            forall|k: int| 0 <= k < i ==> (#[trigger] r@[k + 1])@ == v@[k]@,
        decreases v.len() - i,
    {
        r.push(v[i].clone());
        i = i + 1;
    }
    assert(r.deep_view() =~= seq![x@] + v.deep_view()) by {
        assert forall|k: int| 0 <= k < r.len() implies #[trigger] r.deep_view()[k] == (seq![x@]
            + v.deep_view())[k] by {
            if k > 0 {
                assert(r@[(k - 1) + 1]@ == v@[k - 1]@);
            }
        }
    }
    r
}

// ---------------------------------------------------------------------------
// Styled text
// ---------------------------------------------------------------------------

/// How a piece of text is shown.
#[derive(Debug, Clone, Copy, PartialEq, Eq, Structural)]
pub enum Tone {
    Plain,
    Cyan,
    Dim,
    Green,
    BoldGreen,
    Yellow,
    Red,
}

/// A piece of text and how it is shown.
#[derive(Debug)]
pub struct Span {
    pub text: String,
    pub tone: Tone,
}

/// A piece of text and how it is shown.
pub struct SpanView {
    pub text: Seq<char>,
    pub tone: Tone,
}

impl DeepView for Span {
    type V = SpanView;

    open spec fn deep_view(&self) -> SpanView {
        SpanView { text: self.text@, tone: self.tone }
    }
}

/// A line of text, piece by piece.
#[derive(Debug)]
pub struct Line {
    pub spans: Vec<Span>,
}

impl DeepView for Line {
    type V = Seq<SpanView>;

    open spec fn deep_view(&self) -> Seq<SpanView> {
        self.spans.deep_view()
    }
}

/// A line without text.
pub open spec fn line() -> Seq<SpanView> {
    Seq::empty()
}

pub open spec fn plain(text: Seq<char>) -> SpanView {
    SpanView { text, tone: Tone::Plain }
}

pub open spec fn cyan(text: Seq<char>) -> SpanView {
    SpanView { text, tone: Tone::Cyan }
}

pub open spec fn dim(text: Seq<char>) -> SpanView {
    SpanView { text, tone: Tone::Dim }
}

pub open spec fn green(text: Seq<char>) -> SpanView {
    SpanView { text, tone: Tone::Green }
}

pub open spec fn bold_green(text: Seq<char>) -> SpanView {
    SpanView { text, tone: Tone::BoldGreen }
}

pub open spec fn yellow(text: Seq<char>) -> SpanView {
    SpanView { text, tone: Tone::Yellow }
}

pub open spec fn red(text: Seq<char>) -> SpanView {
    SpanView { text, tone: Tone::Red }
}

impl Line {
    /// A line without text.
    pub fn new() -> (r: Line)
        ensures
            r.deep_view() == line(),
    {
        Line { spans: empty() }
    }

    /// The line with one more piece.
    pub fn add(self, text: &str, tone: Tone) -> (r: Line)
        ensures
            r.deep_view() == self.deep_view().push(SpanView { text: text@, tone }),
    {
        Line { spans: with(self.spans, Span { text: text.to_string(), tone }) }
    }

    pub fn plain(self, text: &str) -> (r: Line)
        ensures
            r.deep_view() == self.deep_view().push(plain(text@)),
    {
        self.add(text, Tone::Plain)
    }

    pub fn cyan(self, text: &str) -> (r: Line)
        ensures
            r.deep_view() == self.deep_view().push(cyan(text@)),
    {
        self.add(text, Tone::Cyan)
    }

    pub fn dim(self, text: &str) -> (r: Line)
        ensures
            r.deep_view() == self.deep_view().push(dim(text@)),
    {
        self.add(text, Tone::Dim)
    }

    pub fn green(self, text: &str) -> (r: Line)
        ensures
            r.deep_view() == self.deep_view().push(green(text@)),
    {
        self.add(text, Tone::Green)
    }

    pub fn bold_green(self, text: &str) -> (r: Line)
        ensures
            r.deep_view() == self.deep_view().push(bold_green(text@)),
    {
        self.add(text, Tone::BoldGreen)
    }

    pub fn yellow(self, text: &str) -> (r: Line)
        ensures
            r.deep_view() == self.deep_view().push(yellow(text@)),
    {
        self.add(text, Tone::Yellow)
    }

    pub fn red(self, text: &str) -> (r: Line)
        ensures
            r.deep_view() == self.deep_view().push(red(text@)),
    {
        self.add(text, Tone::Red)
    }
}

/// The characters of a line, without how they are shown.
pub open spec fn text_of(line: Seq<SpanView>) -> Seq<char>
    decreases line.len(),
{
    if line.len() == 0 {
        seq![]
    } else {
        text_of(line.drop_last()) + line.last().text
    }
}

/// The characters of a line, without how they are shown.
pub fn line_text(line: &Line) -> (r: String)
    ensures
        r@ == text_of(line.deep_view()),
{
    let ghost all = line.deep_view();
    let mut r = String::new();
    let mut i: usize = 0;
    assert(all.take(0) =~= seq![]);
    while i < line.spans.len()
        invariant
            all == line.deep_view(),
            i <= line.spans.len(),
            r@ == text_of(all.take(i as int)),
        decreases line.spans.len() - i,
    {
        assert(all.take(i + 1).drop_last() =~= all.take(i as int));
        r.append(line.spans[i].text.as_str());
        i = i + 1;
    }
    assert(all.take(i as int) =~= all);
    r
}

/// The first line, from `i` on, with the same characters as `wanted`.
pub open spec fn same_text_from(
    lines: Seq<Seq<SpanView>>,
    wanted: Seq<char>,
    i: int,
) -> Option<int>
    decreases lines.len() - i,
{
    if i >= lines.len() {
        None
    } else if text_of(lines[i]) == wanted {
        Some(i)
    } else {
        same_text_from(lines, wanted, i + 1)
    }
}

/// The first option that reads like the one picked.
pub open spec fn picked(options: Seq<Seq<SpanView>>, pick: int) -> Option<int> {
    if 0 <= pick < options.len() {
        same_text_from(options, text_of(options[pick]), 0)
    } else {
        None
    }
}

/// Whatever option the user picks, one that reads the same is found, and none
/// for a pick that was not offered.
pub proof fn law_pick_is_found(options: Seq<Seq<SpanView>>, pick: int)
    ensures
        0 <= pick < options.len() <==> picked(options, pick) is Some,
        picked(options, pick) matches Some(k) ==> 0 <= k <= pick && text_of(options[k]) == text_of(
            options[pick],
        ),
{
    if 0 <= pick < options.len() {
        lemma_same_text_from(options, pick, 0);
    }
}

proof fn lemma_same_text_from(options: Seq<Seq<SpanView>>, pick: int, i: int)
    requires
        0 <= i <= pick < options.len(),
    ensures
        same_text_from(options, text_of(options[pick]), i) matches Some(k) && i <= k <= pick
            && text_of(options[k]) == text_of(options[pick]),
    decreases pick - i,
{
    if i < pick && text_of(options[i]) != text_of(options[pick]) {
        lemma_same_text_from(options, pick, i + 1);
    }
}

/// The first option that reads like the one picked.
pub fn find_picked(options: &Vec<Line>, pick: usize) -> (r: Option<usize>)
    ensures
        match r {
            Some(k) => k < options.len() && picked(options.deep_view(), pick as int) == Some(
                k as int,
            ),
            None => picked(options.deep_view(), pick as int) is None,
        },
{
    if pick >= options.len() {
        return None;
    }
    let wanted = line_text(&options[pick]);
    let mut i: usize = 0;
    while i < options.len()
        invariant
            pick < options.len(),
            i <= options.len(),
            wanted@ == text_of(options.deep_view()[pick as int]),
            same_text_from(options.deep_view(), wanted@, i as int) == picked(
                options.deep_view(),
                pick as int,
            ),
        decreases options.len() - i,
    {
        if line_text(&options[i]) == wanted {
            return Some(i);
        }
        i = i + 1;
    }
    None
}

// ---------------------------------------------------------------------------
// Requests and replies
// ---------------------------------------------------------------------------

/// What an operation asks of the host.
#[derive(Debug)]
pub enum Request {
    /// Run a program with its arguments and collect what it prints.
    Run(Vec<String>),
    /// Run a program with its arguments, whatever comes of it, and drop what it
    /// prints.
    RunQuietly(Vec<String>),
    /// Run a program with its arguments, whatever comes of it, and let it print.
    RunShown(Vec<String>),
    /// Start a program with its arguments in the background, its errors going
    /// to the given file.
    Spawn(Vec<String>, String),
    /// The path of this program.
    OwnPath,
    /// The directory of the tool's data, made if it is missing.
    DataDir,
    /// The directory of the tool's settings, made if it is missing.
    ConfigDir,
    /// Whether there is such a file.
    Exists(String),
    /// The text of a file.
    Read(String),
    /// Write a text to a file.
    Write(String, String),
    /// Remove a file.
    Remove(String),
    /// The mode bits of a file.
    Mode(String),
    /// The drives that a stored text lists.
    DecodeDrives(String),
    /// The text that stores a list of drives.
    EncodeDrives(Vec<VirtualDrive>),
    /// The HID devices that a stored text lists.
    DecodeHids(String),
    /// The text that stores a list of HID devices.
    EncodeHids(Vec<HidDevice>),
    /// The seconds since 1970.
    Clock,
    /// Print a line.
    Say(Line),
    /// Print a line as an error.
    Warn(Line),
    /// Have the user pick an option; the number is the one offered first.
    Choose(Line, Vec<Line>, usize),
    /// Have the user enter a text, with a default if there is one.
    Enter(String, Option<String>),
    /// Wait for so many milliseconds.
    Pause(u64),
    /// Connect to a port of this machine. The connection lasts until it is
    /// closed or the operation ends.
    Connect(u64),
    /// Connect to a local socket. The connection lasts until it is closed or
    /// the operation ends.
    ConnectSocket(String),
    /// Send bytes over the connection.
    Send(Vec<u8>),
    /// Receive so many bytes over the connection.
    Receive(usize),
    /// The number of the connection's file descriptor.
    Descriptor,
    /// Close the connection.
    HangUp,
    /// Clear the halt of an endpoint of the USB device at the given path.
    ClearHalt(String, u32),
    /// Listen on a free port of this machine, and say which.
    Listen,
    /// Listen on a local socket.
    ListenSocket(String),
    /// The number of this process.
    OwnId,
    /// Make the pipe over which waiting transfers are woken.
    OpenPipe,
}

/// What an operation asks of the host.
pub enum RequestView {
    Run(Seq<Seq<char>>),
    RunQuietly(Seq<Seq<char>>),
    RunShown(Seq<Seq<char>>),
    Spawn(Seq<Seq<char>>, Seq<char>),
    OwnPath,
    DataDir,
    ConfigDir,
    Exists(Seq<char>),
    Read(Seq<char>),
    Write(Seq<char>, Seq<char>),
    Remove(Seq<char>),
    Mode(Seq<char>),
    DecodeDrives(Seq<char>),
    EncodeDrives(Seq<DriveView>),
    DecodeHids(Seq<char>),
    EncodeHids(Seq<HidView>),
    Clock,
    Say(Seq<SpanView>),
    Warn(Seq<SpanView>),
    Choose(Seq<SpanView>, Seq<Seq<SpanView>>, int),
    Enter(Seq<char>, Option<Seq<char>>),
    Pause(u64),
    Connect(u64),
    ConnectSocket(Seq<char>),
    Send(Seq<u8>),
    Receive(int),
    Descriptor,
    HangUp,
    ClearHalt(Seq<char>, u32),
    Listen,
    ListenSocket(Seq<char>),
    OwnId,
    OpenPipe,
}

impl DeepView for Request {
    type V = RequestView;

    open spec fn deep_view(&self) -> RequestView {
        match self {
            Request::Run(a) => RequestView::Run(a.deep_view()),
            Request::RunQuietly(a) => RequestView::RunQuietly(a.deep_view()),
            Request::RunShown(a) => RequestView::RunShown(a.deep_view()),
            Request::OwnPath => RequestView::OwnPath,
            Request::Spawn(a, f) => RequestView::Spawn(a.deep_view(), f@),
            Request::DataDir => RequestView::DataDir,
            Request::ConfigDir => RequestView::ConfigDir,
            Request::Exists(p) => RequestView::Exists(p@),
            Request::Read(p) => RequestView::Read(p@),
            Request::Write(p, s) => RequestView::Write(p@, s@),
            Request::Remove(p) => RequestView::Remove(p@),
            Request::Mode(p) => RequestView::Mode(p@),
            Request::DecodeDrives(s) => RequestView::DecodeDrives(s@),
            Request::EncodeDrives(d) => RequestView::EncodeDrives(d.deep_view()),
            Request::DecodeHids(s) => RequestView::DecodeHids(s@),
            Request::EncodeHids(d) => RequestView::EncodeHids(d.deep_view()),
            Request::Clock => RequestView::Clock,
            Request::Say(l) => RequestView::Say(l.deep_view()),
            Request::Warn(l) => RequestView::Warn(l.deep_view()),
            Request::Choose(l, o, c) => RequestView::Choose(
                l.deep_view(),
                o.deep_view(),
                *c as int,
            ),
            Request::Enter(s, d) => RequestView::Enter(s@, d.deep_view()),
            Request::Pause(n) => RequestView::Pause(*n),
            Request::Connect(n) => RequestView::Connect(*n),
            Request::ConnectSocket(p) => RequestView::ConnectSocket(p@),
            Request::Send(d) => RequestView::Send(d@),
            Request::Receive(n) => RequestView::Receive(*n as int),
            Request::Descriptor => RequestView::Descriptor,
            Request::HangUp => RequestView::HangUp,
            Request::ClearHalt(p, e) => RequestView::ClearHalt(p@, *e),
            Request::Listen => RequestView::Listen,
            Request::ListenSocket(p) => RequestView::ListenSocket(p@),
            Request::OwnId => RequestView::OwnId,
            Request::OpenPipe => RequestView::OpenPipe,
        }
    }
}

/// What the host replies. A failure carries its messages, the outermost first.
#[derive(Debug)]
pub enum Reply {
    /// Done, with nothing to tell.
    Done,
    /// A text.
    Text(String),
    /// A program has ended: whether it succeeded, and the bytes that it printed
    /// as output and as errors.
    Exit(bool, Vec<u8>, Vec<u8>),
    /// The request failed.
    Failed(Vec<String>),
    /// Yes or no.
    Flag(bool),
    /// A number.
    Number(u64),
    /// Bytes.
    Bytes(Vec<u8>),
    /// The option that the user picked.
    Picked(usize),
    /// Drives.
    Drives(Vec<VirtualDrive>),
    /// HID devices.
    Hids(Vec<HidDevice>),
}

/// What the host replies.
pub enum ReplyView {
    Done,
    Text(Seq<char>),
    Exit(bool, Seq<u8>, Seq<u8>),
    Failed(Chain),
    Flag(bool),
    Number(u64),
    Bytes(Seq<u8>),
    Picked(int),
    Drives(Seq<DriveView>),
    Hids(Seq<HidView>),
}

/// The messages of a failure, the outermost first.
pub type Chain = Seq<Seq<char>>;

/// The replies so far.
pub type Log = Seq<ReplyView>;

impl DeepView for Reply {
    type V = ReplyView;

    open spec fn deep_view(&self) -> ReplyView {
        match self {
            Reply::Done => ReplyView::Done,
            Reply::Text(s) => ReplyView::Text(s@),
            Reply::Exit(ok, out, err) => ReplyView::Exit(*ok, out@, err@),
            Reply::Failed(c) => ReplyView::Failed(c.deep_view()),
            Reply::Flag(b) => ReplyView::Flag(*b),
            Reply::Number(n) => ReplyView::Number(*n),
            Reply::Bytes(d) => ReplyView::Bytes(d@),
            Reply::Picked(i) => ReplyView::Picked(*i as int),
            Reply::Drives(d) => ReplyView::Drives(d.deep_view()),
            Reply::Hids(d) => ReplyView::Hids(d.deep_view()),
        }
    }
}

// ---------------------------------------------------------------------------
// Steps
// ---------------------------------------------------------------------------

/// Why an operation does not go on yet, or not at all.
#[derive(Debug)]
pub enum Pause {
    /// The host is asked for something.
    Ask(Request),
    /// The operation has failed, with these messages, the outermost first; the
    /// number is the position in the log behind the replies it used.
    Fail(Vec<String>, usize),
}

/// Where an operation stands after the replies so far: it has its result, and
/// the position in the log behind the replies it used; or it pauses.
pub type Step<T> = Result<(T, usize), Pause>;

/// Where an operation stands after the replies so far.
pub enum Outcome<T> {
    Ask(RequestView),
    Ready(T, int),
    Fail(Chain, int),
}

/// Where an operation stands after the replies so far.
pub open spec fn outcome<T: DeepView>(r: Step<T>) -> Outcome<T::V> {
    match r {
        Ok((v, n)) => Outcome::Ready(v.deep_view(), n as int),
        Err(Pause::Ask(rq)) => Outcome::Ask(rq.deep_view()),
        Err(Pause::Fail(c, n)) => Outcome::Fail(c.deep_view(), n as int),
    }
}

/// `s`, and then what follows from its result.
pub open spec fn bind<A, B>(s: Outcome<A>, k: spec_fn(A, int) -> Outcome<B>) -> Outcome<B> {
    match s {
        Outcome::Ask(rq) => Outcome::Ask(rq),
        Outcome::Ready(v, n) => k(v, n),
        Outcome::Fail(c, n) => Outcome::Fail(c, n),
    }
}

/// A failure with one message.
pub open spec fn failure<T>(at: int, message: Seq<char>) -> Outcome<T> {
    Outcome::Fail(seq![message], at)
}

/// A failure with one message.
pub fn fail<T: DeepView>(at: usize, message: &str) -> (r: Step<T>)
    ensures
        outcome(r) == failure::<T::V>(at as int, message@),
{
    Err(Pause::Fail(words1(message), at))
}

/// A failure of `s` told under `message`.
pub open spec fn in_context<T>(s: Outcome<T>, message: Seq<char>) -> Outcome<T> {
    match s {
        Outcome::Fail(c, n) => Outcome::Fail(seq![message] + c, n),
        _ => s,
    }
}

/// A failure of `s` told under `message`.
pub fn context<T: DeepView>(s: Step<T>, message: &str) -> (r: Step<T>)
    ensures
        outcome(r) == in_context(outcome(s), message@),
{
    match s {
        Ok(v) => Ok(v),
        Err(Pause::Ask(rq)) => Err(Pause::Ask(rq)),
        Err(Pause::Fail(c, n)) => Err(Pause::Fail(prepended(message.to_string(), c), n)),
    }
}

/// `s` with a failure turned into a lack of result.
pub open spec fn spec_attempt<T>(s: Outcome<T>) -> Outcome<Option<T>> {
    match s {
        Outcome::Ask(rq) => Outcome::Ask(rq),
        Outcome::Ready(v, n) => Outcome::Ready(Some(v), n),
        Outcome::Fail(_, n) => Outcome::Ready(None, n),
    }
}

/// `s` with a failure turned into a lack of result.
pub fn attempt<T: DeepView>(s: Step<T>) -> (r: Step<Option<T>>)
    ensures
        outcome(r) == spec_attempt(outcome(s)),
{
    match s {
        Ok((v, n)) => Ok((Some(v), n)),
        Err(Pause::Ask(rq)) => Err(Pause::Ask(rq)),
        Err(Pause::Fail(_, n)) => Ok((None, n)),
    }
}

/// The messages with which `s` failed, if it did.
pub open spec fn spec_fault<T>(s: Outcome<T>) -> Outcome<Option<Chain>> {
    match s {
        Outcome::Ask(rq) => Outcome::Ask(rq),
        Outcome::Ready(_, n) => Outcome::Ready(None, n),
        Outcome::Fail(c, n) => Outcome::Ready(Some(c), n),
    }
}

/// The messages with which `s` failed, if it did.
pub fn fault<T: DeepView>(s: Step<T>) -> (r: Step<Option<Vec<String>>>)
    ensures
        outcome(r) == spec_fault(outcome(s)),
{
    match s {
        Ok((_, n)) => Ok((None, n)),
        Err(Pause::Ask(rq)) => Err(Pause::Ask(rq)),
        Err(Pause::Fail(c, n)) => Ok((Some(c), n)),
    }
}

/// The reply at `at`, once it is there.
pub open spec fn replied(log: Log, at: int) -> Option<ReplyView> {
    if 0 <= at < log.len() {
        Some(log[at])
    } else {
        None
    }
}

/// Asks for a text; without one the operation fails.
pub open spec fn spec_ask_text(log: Log, at: int, rq: RequestView) -> Outcome<Seq<char>> {
    match replied(log, at) {
        None => Outcome::Ask(rq),
        Some(ReplyView::Text(s)) => Outcome::Ready(s, at + 1),
        Some(ReplyView::Failed(c)) => Outcome::Fail(c, at + 1),
        Some(_) => Outcome::Fail(seq![], at + 1),
    }
}

/// Asks for a text; without one the operation fails.
pub fn ask_text(log: &Vec<Reply>, at: usize, rq: Request) -> (r: Step<String>)
    ensures
        outcome(r) == spec_ask_text(log.deep_view(), at as int, rq.deep_view()),
{
    if at < log.len() {
        match &log[at] {
            Reply::Text(s) => Ok((s.clone(), at + 1)),
            Reply::Failed(c) => Err(Pause::Fail(copy_texts(c), at + 1)),
            _ => Err(Pause::Fail(empty(), at + 1)),
        }
    } else {
        Err(Pause::Ask(rq))
    }
}

/// Has something done; if that fails, so does the operation.
pub open spec fn spec_ask_done(log: Log, at: int, rq: RequestView) -> Outcome<()> {
    match replied(log, at) {
        None => Outcome::Ask(rq),
        Some(ReplyView::Failed(c)) => Outcome::Fail(c, at + 1),
        Some(_) => Outcome::Ready((), at + 1),
    }
}

/// Has something done; if that fails, so does the operation.
pub fn ask_done(log: &Vec<Reply>, at: usize, rq: Request) -> (r: Step<()>)
    ensures
        outcome(r) == spec_ask_done(log.deep_view(), at as int, rq.deep_view()),
{
    if at < log.len() {
        match &log[at] {
            Reply::Failed(c) => Err(Pause::Fail(copy_texts(c), at + 1)),
            _ => Ok(((), at + 1)),
        }
    } else {
        Err(Pause::Ask(rq))
    }
}

/// Has something done, whatever comes of it.
pub open spec fn spec_tell(log: Log, at: int, rq: RequestView) -> Outcome<()> {
    match replied(log, at) {
        None => Outcome::Ask(rq),
        Some(_) => Outcome::Ready((), at + 1),
    }
}

/// Has something done, whatever comes of it.
pub fn tell(log: &Vec<Reply>, at: usize, rq: Request) -> (r: Step<()>)
    ensures
        outcome(r) == spec_tell(log.deep_view(), at as int, rq.deep_view()),
{
    if at < log.len() {
        Ok(((), at + 1))
    } else {
        Err(Pause::Ask(rq))
    }
}

/// Prints a line.
pub open spec fn spec_say(log: Log, at: int, line: Seq<SpanView>) -> Outcome<()> {
    spec_tell(log, at, RequestView::Say(line))
}

/// Prints a line.
pub fn say(log: &Vec<Reply>, at: usize, line: Line) -> (r: Step<()>)
    ensures
        outcome(r) == spec_say(log.deep_view(), at as int, line.deep_view()),
{
    tell(log, at, Request::Say(line))
}

/// Asks yes or no; only a yes counts as one.
pub open spec fn spec_ask_flag(log: Log, at: int, rq: RequestView) -> Outcome<bool> {
    match replied(log, at) {
        None => Outcome::Ask(rq),
        Some(ReplyView::Flag(b)) => Outcome::Ready(b, at + 1),
        Some(_) => Outcome::Ready(false, at + 1),
    }
}

/// Asks yes or no; only a yes counts as one.
pub fn ask_flag(log: &Vec<Reply>, at: usize, rq: Request) -> (r: Step<bool>)
    ensures
        outcome(r) == spec_ask_flag(log.deep_view(), at as int, rq.deep_view()),
{
    if at < log.len() {
        match &log[at] {
            Reply::Flag(b) => Ok((*b, at + 1)),
            _ => Ok((false, at + 1)),
        }
    } else {
        Err(Pause::Ask(rq))
    }
}

/// Asks for a number; without one the operation fails.
pub open spec fn spec_ask_number(log: Log, at: int, rq: RequestView) -> Outcome<u64> {
    match replied(log, at) {
        None => Outcome::Ask(rq),
        Some(ReplyView::Number(n)) => Outcome::Ready(n, at + 1),
        Some(ReplyView::Failed(c)) => Outcome::Fail(c, at + 1),
        Some(_) => Outcome::Fail(seq![], at + 1),
    }
}

/// Asks for a number; without one the operation fails.
pub fn ask_number(log: &Vec<Reply>, at: usize, rq: Request) -> (r: Step<u64>)
    ensures
        outcome(r) == spec_ask_number(log.deep_view(), at as int, rq.deep_view()),
{
    if at < log.len() {
        match &log[at] {
            Reply::Number(n) => Ok((*n, at + 1)),
            Reply::Failed(c) => Err(Pause::Fail(copy_texts(c), at + 1)),
            _ => Err(Pause::Fail(empty(), at + 1)),
        }
    } else {
        Err(Pause::Ask(rq))
    }
}

/// Asks for bytes; without at least `least` of them the operation fails.
pub open spec fn spec_ask_bytes(log: Log, at: int, rq: RequestView, least: int) -> Outcome<
    Seq<u8>,
> {
    match replied(log, at) {
        None => Outcome::Ask(rq),
        Some(ReplyView::Bytes(d)) => if d.len() >= least {
            Outcome::Ready(d, at + 1)
        } else {
            Outcome::Fail(seq![], at + 1)
        },
        Some(ReplyView::Failed(c)) => Outcome::Fail(c, at + 1),
        Some(_) => Outcome::Fail(seq![], at + 1),
    }
}

/// A sequence of bytes.
#[derive(Debug)]
pub struct Data {
    pub bytes: Vec<u8>,
}

impl DeepView for Data {
    type V = Seq<u8>;

    open spec fn deep_view(&self) -> Seq<u8> {
        self.bytes@
    }
}

/// Asks for bytes; without at least `least` of them the operation fails.
pub fn ask_bytes(log: &Vec<Reply>, at: usize, rq: Request, least: usize) -> (r: Step<Data>)
    ensures
        outcome(r) == spec_ask_bytes(log.deep_view(), at as int, rq.deep_view(), least as int),
        r matches Ok((d, n)) ==> d.bytes.len() >= least,
{
    if at < log.len() {
        match &log[at] {
            Reply::Bytes(d) => if d.len() >= least {
                let bytes = vstd::slice::slice_to_vec(d.as_slice());
                Ok((Data { bytes }, at + 1))
            } else {
                Err(Pause::Fail(empty(), at + 1))
            },
            Reply::Failed(c) => Err(Pause::Fail(copy_texts(c), at + 1)),
            _ => Err(Pause::Fail(empty(), at + 1)),
        }
    } else {
        Err(Pause::Ask(rq))
    }
}

/// Has the user pick one of the options; without a pick the operation fails.
pub open spec fn spec_ask_pick(log: Log, at: int, rq: RequestView) -> Outcome<int> {
    match replied(log, at) {
        None => Outcome::Ask(rq),
        Some(ReplyView::Picked(i)) => Outcome::Ready(i, at + 1),
        Some(ReplyView::Failed(c)) => Outcome::Fail(c, at + 1),
        Some(_) => Outcome::Fail(seq![], at + 1),
    }
}

/// The number of an option.
#[derive(Debug)]
pub struct Pick {
    pub index: usize,
}

impl DeepView for Pick {
    type V = int;

    open spec fn deep_view(&self) -> int {
        self.index as int
    }
}

/// Has the user pick one of the options; without a pick the operation fails.
pub fn ask_pick(log: &Vec<Reply>, at: usize, rq: Request) -> (r: Step<Pick>)
    ensures
        outcome(r) == spec_ask_pick(log.deep_view(), at as int, rq.deep_view()),
{
    if at < log.len() {
        match &log[at] {
            Reply::Picked(i) => Ok((Pick { index: *i }, at + 1)),
            Reply::Failed(c) => Err(Pause::Fail(copy_texts(c), at + 1)),
            _ => Err(Pause::Fail(empty(), at + 1)),
        }
    } else {
        Err(Pause::Ask(rq))
    }
}

/// Asks for drives; without them the operation fails.
pub open spec fn spec_ask_drives(log: Log, at: int, rq: RequestView) -> Outcome<Seq<DriveView>> {
    match replied(log, at) {
        None => Outcome::Ask(rq),
        Some(ReplyView::Drives(d)) => Outcome::Ready(d, at + 1),
        Some(ReplyView::Failed(c)) => Outcome::Fail(c, at + 1),
        Some(_) => Outcome::Fail(seq![], at + 1),
    }
}

/// Asks for drives; without them the operation fails.
pub fn ask_drives(log: &Vec<Reply>, at: usize, rq: Request) -> (r: Step<Vec<VirtualDrive>>)
    ensures
        outcome(r) == spec_ask_drives(log.deep_view(), at as int, rq.deep_view()),
{
    if at < log.len() {
        match &log[at] {
            Reply::Drives(d) => Ok((copy_drives(d), at + 1)),
            Reply::Failed(c) => Err(Pause::Fail(copy_texts(c), at + 1)),
            _ => Err(Pause::Fail(empty(), at + 1)),
        }
    } else {
        Err(Pause::Ask(rq))
    }
}

/// A list of the same drives.
pub fn copy_drives(v: &Vec<VirtualDrive>) -> (r: Vec<VirtualDrive>)
    ensures
        r.deep_view() == v.deep_view(),
{
    let mut r: Vec<VirtualDrive> = Vec::new();
    let mut i: usize = 0;
    while i < v.len()
        invariant
            i <= v.len(),
            r.len() == i,
            forall|k: int| 0 <= k < i ==> (#[trigger] r@[k]).deep_view() == v@[k].deep_view(),
        decreases v.len() - i,
    {
        r.push(v[i].copy());
        i = i + 1;
    }
    assert(r.deep_view() =~= v.deep_view());
    r
}

/// Asks for HID devices; without them the operation fails.
pub open spec fn spec_ask_hids(log: Log, at: int, rq: RequestView) -> Outcome<Seq<HidView>> {
    match replied(log, at) {
        None => Outcome::Ask(rq),
        Some(ReplyView::Hids(d)) => Outcome::Ready(d, at + 1),
        Some(ReplyView::Failed(c)) => Outcome::Fail(c, at + 1),
        Some(_) => Outcome::Fail(seq![], at + 1),
    }
}

/// Asks for HID devices; without them the operation fails.
pub fn ask_hids(log: &Vec<Reply>, at: usize, rq: Request) -> (r: Step<Vec<HidDevice>>)
    ensures
        outcome(r) == spec_ask_hids(log.deep_view(), at as int, rq.deep_view()),
{
    if at < log.len() {
        match &log[at] {
            Reply::Hids(d) => Ok((copy_hids(d), at + 1)),
            Reply::Failed(c) => Err(Pause::Fail(copy_texts(c), at + 1)),
            _ => Err(Pause::Fail(empty(), at + 1)),
        }
    } else {
        Err(Pause::Ask(rq))
    }
}

/// A list of the same HID devices.
pub fn copy_hids(v: &Vec<HidDevice>) -> (r: Vec<HidDevice>)
    ensures
        r.deep_view() == v.deep_view(),
{
    let mut r: Vec<HidDevice> = Vec::new();
    let mut i: usize = 0;
    while i < v.len()
        invariant
            i <= v.len(),
            r.len() == i,
            forall|k: int| 0 <= k < i ==> (#[trigger] r@[k]).deep_view() == v@[k].deep_view(),
        decreases v.len() - i,
    {
        r.push(v[i].copy());
        i = i + 1;
    }
    assert(r.deep_view() =~= v.deep_view());
    r
}

/// A part of a line holds its text, in the tone that it is named after; a line
/// begins empty, and reads as its parts one behind the other.
pub proof fn law_lines_are_made_of_parts(l: Seq<SpanView>, t: Seq<char>, tone: Tone)
    ensures
        plain(t) == (SpanView { text: t, tone: Tone::Plain }),
        cyan(t) == (SpanView { text: t, tone: Tone::Cyan }),
        dim(t) == (SpanView { text: t, tone: Tone::Dim }),
        green(t) == (SpanView { text: t, tone: Tone::Green }),
        bold_green(t) == (SpanView { text: t, tone: Tone::BoldGreen }),
        yellow(t) == (SpanView { text: t, tone: Tone::Yellow }),
        red(t) == (SpanView { text: t, tone: Tone::Red }),
        line().len() == 0,
        text_of(line()).len() == 0,
        text_of(l.push(SpanView { text: t, tone })) == text_of(l) + t,
{
    assert(l.push(SpanView { text: t, tone }).drop_last() =~= l);
}

} // verus!
