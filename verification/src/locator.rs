//! Finding the instrument: either a given TCP host, or the first resource,
//! in the order of the resource patterns and of each listing, that answers
//! the identification query with the vendor's name.
//!
//! [`Locator`] makes the decisions and leaves the transport to its caller:
//! `request` says what to do next, and `advance` takes what came of it.

use crate::error::ErrorKind;
use crate::wire::{append_bytes, contains, contains_bytes};
use vstd::prelude::*;
use vstd::slice::slice_to_vec;
use vstd::string::StringSliceAdditionalSpecFns;

verus! {

/// Seconds that a session waits for the instrument while it is being probed.
pub const PROBE_TIMEOUT_SECS: u64 = 1;

/// Seconds that the session in use waits for the instrument.
pub const OPERATIONAL_TIMEOUT_SECS: u64 = 10;

/// The number of resource patterns that discovery tries.
pub const PATTERN_COUNT: usize = 3;

/// The name that the wanted instrument's identification holds.
pub open spec fn vendor_tag() -> Seq<u8> {
    "Batronix".spec_bytes()
}

/// The identification query, with its terminator.
pub open spec fn identify_query() -> Seq<u8> {
    "*IDN?\n".spec_bytes()
}

/// The resource patterns in the order in which discovery tries them: every
/// instrument, then USB instruments, then TCP/IP instruments.
pub open spec fn pattern_text(pattern: nat) -> Seq<u8> {
    if pattern == 0 {
        "?*::INSTR".spec_bytes()
    } else if pattern == 1 {
        "USB?*INSTR".spec_bytes()
    } else {
        "TCPIP?*INSTR".spec_bytes()
    }
}

/// The resource string of the instrument at a TCP host.
pub open spec fn tcpip_resource(host: Seq<u8>) -> Seq<u8> {
    "TCPIP::".spec_bytes() + host + "::INSTR".spec_bytes()
}

/// What the caller is to do on the transport.
#[derive(Clone, Debug, PartialEq, Eq)]
pub enum LocatorRequest {
    /// List the resources that match this pattern.
    List(Vec<u8>),
    /// Close the session in hand, if any, and open this resource with this
    /// timeout in seconds.
    Open(Vec<u8>, u64),
    /// Write these bytes to the open session.
    Write(Vec<u8>),
    /// Read one line from the open session.
    ReadLine,
    /// Nothing more: the open session, on this resource, is the instrument's.
    Found(Vec<u8>),
    /// Nothing more: there is no instrument to use. Close the session in hand.
    Failed(ErrorKind),
}

/// The mathematical content of a [`LocatorRequest`].
pub enum RequestView {
    List(Seq<u8>),
    Open(Seq<u8>, u64),
    Write(Seq<u8>),
    ReadLine,
    Found(Seq<u8>),
    Failed(ErrorKind),
}

impl View for LocatorRequest {
    type V = RequestView;

    open spec fn view(&self) -> RequestView {
        match self {
            LocatorRequest::List(pattern) => RequestView::List(pattern@),
            LocatorRequest::Open(resource, timeout) => RequestView::Open(resource@, *timeout),
            LocatorRequest::Write(bytes) => RequestView::Write(bytes@),
            LocatorRequest::ReadLine => RequestView::ReadLine,
            LocatorRequest::Found(resource) => RequestView::Found(resource@),
            LocatorRequest::Failed(e) => RequestView::Failed(*e),
        }
    }
}

/// What came of the last request.
#[derive(Clone, Debug, PartialEq, Eq)]
pub enum LocatorEvent {
    /// The listing succeeded with these resources, in the transport's order.
    Listed(Vec<Vec<u8>>),
    /// The session is open.
    Opened,
    /// The bytes are written.
    Written,
    /// This line was read.
    Line(Vec<u8>),
    /// The request failed.
    Failed,
}

/// The mathematical content of a [`LocatorEvent`].
pub enum EventView {
    Listed(Seq<Seq<u8>>),
    Opened,
    Written,
    Line(Seq<u8>),
    Failed,
}

/// The byte strings of a list, in order.
pub open spec fn texts_of(list: Seq<Vec<u8>>) -> Seq<Seq<u8>> {
    Seq::new(list.len(), |i: int| list[i]@)
}

impl View for LocatorEvent {
    type V = EventView;

    open spec fn view(&self) -> EventView {
        match self {
            LocatorEvent::Listed(list) => EventView::Listed(texts_of(list@)),
            LocatorEvent::Opened => EventView::Opened,
            LocatorEvent::Written => EventView::Written,
            LocatorEvent::Line(line) => EventView::Line(line@),
            LocatorEvent::Failed => EventView::Failed,
        }
    }
}

/// A place in discovery: a pattern, the resources that it listed, and the
/// one of them in hand.
pub struct Probe {
    pub pattern: nat,
    pub candidates: Seq<Seq<u8>>,
    pub index: nat,
}

impl Probe {
    /// The resource in hand.
    pub open spec fn resource(self) -> Seq<u8> {
        self.candidates[self.index as int]
    }

    /// Whether the pattern and the resource in hand exist.
    pub open spec fn well_formed(self) -> bool {
        self.pattern < PATTERN_COUNT && self.index < self.candidates.len()
    }
}

/// How far the search for the instrument has come.
pub enum LocatorState {
    /// The resource of a given host is to be opened.
    Direct(Seq<u8>),
    /// The resources of this pattern are to be listed.
    Listing(nat),
    /// The resource in hand is to be opened for probing.
    Opening(Probe),
    /// The identification query is to be written.
    Asking(Probe),
    /// The identification is to be read.
    Listening(Probe),
    /// The vendor matched: the resource is to be opened again, for use.
    Reopening(Probe),
    /// The instrument's session is open on this resource.
    Found(Seq<u8>),
    /// There is no instrument to use.
    Failed(ErrorKind),
}

impl LocatorState {
    /// Whether every pattern and resource in hand exists.
    pub open spec fn well_formed(self) -> bool {
        match self {
            LocatorState::Listing(pattern) => pattern < PATTERN_COUNT,
            LocatorState::Opening(probe) => probe.well_formed(),
            LocatorState::Asking(probe) => probe.well_formed(),
            LocatorState::Listening(probe) => probe.well_formed(),
            LocatorState::Reopening(probe) => probe.well_formed(),
            _ => true,
        }
    }

    /// Whether the search has ended.
    pub open spec fn finished(self) -> bool {
        self is Found || self is Failed
    }
}

/// The state that follows when pattern `pattern` has nothing more to offer:
/// the next pattern, or the end of the search without a device.
pub open spec fn after_pattern(pattern: nat) -> LocatorState {
    if pattern + 1 < PATTERN_COUNT {
        LocatorState::Listing(pattern + 1)
    } else {
        LocatorState::Failed(ErrorKind::DeviceNotFound)
    }
}

/// The state that follows when the resource in hand is given up: the next
/// resource of the listing, or what follows the pattern.
pub open spec fn after_candidate(probe: Probe) -> LocatorState {
    if probe.index + 1 < probe.candidates.len() {
        LocatorState::Opening(Probe { index: probe.index + 1, ..probe })
    } else {
        after_pattern(probe.pattern)
    }
}

/// What the caller is to do in state `s`.
pub open spec fn locator_request(s: LocatorState) -> RequestView {
    match s {
        LocatorState::Direct(resource) => RequestView::Open(resource, OPERATIONAL_TIMEOUT_SECS),
        LocatorState::Listing(pattern) => RequestView::List(pattern_text(pattern)),
        LocatorState::Opening(probe) => RequestView::Open(probe.resource(), PROBE_TIMEOUT_SECS),
        LocatorState::Asking(_) => RequestView::Write(identify_query()),
        LocatorState::Listening(_) => RequestView::ReadLine,
        LocatorState::Reopening(probe) => RequestView::Open(
            probe.resource(),
            OPERATIONAL_TIMEOUT_SECS,
        ),
        LocatorState::Found(resource) => RequestView::Found(resource),
        LocatorState::Failed(e) => RequestView::Failed(e),
    }
}

/// The state after event `e` in state `s`.
///
/// With a given host, the one open decides: its failure is a transport
/// error. In discovery no failure is final: a listing that fails or is empty
/// leads to the next pattern, and a resource that cannot be opened, asked or
/// heard, whose answer lacks the vendor's name, or that cannot be opened
/// again, leads to the next resource. An event that does not answer the
/// request counts as its failure.
pub open spec fn locator_step(s: LocatorState, e: EventView) -> LocatorState {
    match s {
        LocatorState::Direct(resource) => if e is Opened {
            LocatorState::Found(resource)
        } else {
            LocatorState::Failed(ErrorKind::Transport)
        },
        LocatorState::Listing(pattern) => match e {
            EventView::Listed(list) if list.len() > 0 => LocatorState::Opening(
                Probe { pattern, candidates: list, index: 0 },
            ),
            _ => after_pattern(pattern),
        },
        LocatorState::Opening(probe) => if e is Opened {
            LocatorState::Asking(probe)
        } else {
            after_candidate(probe)
        },
        LocatorState::Asking(probe) => if e is Written {
            LocatorState::Listening(probe)
        } else {
            after_candidate(probe)
        },
        LocatorState::Listening(probe) => match e {
            EventView::Line(line) if contains(line, vendor_tag()) => LocatorState::Reopening(probe),
            _ => after_candidate(probe),
        },
        LocatorState::Reopening(probe) => if e is Opened {
            LocatorState::Found(probe.resource())
        } else {
            after_candidate(probe)
        },
        LocatorState::Found(_) => s,
        LocatorState::Failed(_) => s,
    }
}

/// A step leads from a well-formed state to a well-formed state.
pub proof fn lemma_step_keeps_well_formed(s: LocatorState, e: EventView)
    requires
        s.well_formed(),
    ensures
        locator_step(s, e).well_formed(),
{
}

#[derive(Debug)]
struct Cursor {
    pattern: usize,
    candidates: Vec<Vec<u8>>,
    index: usize,
}

impl View for Cursor {
    type V = Probe;

    closed spec fn view(&self) -> Probe {
        Probe {
            pattern: self.pattern as nat,
            candidates: texts_of(self.candidates@),
            index: self.index as nat,
        }
    }
}

#[derive(Debug)]
enum Progress {
    Direct(Vec<u8>),
    Listing(usize),
    Opening(Cursor),
    Asking(Cursor),
    Listening(Cursor),
    Reopening(Cursor),
    Found(Vec<u8>),
    Failed(ErrorKind),
}

impl View for Progress {
    type V = LocatorState;

    closed spec fn view(&self) -> LocatorState {
        match self {
            Progress::Direct(resource) => LocatorState::Direct(resource@),
            Progress::Listing(pattern) => LocatorState::Listing(*pattern as nat),
            Progress::Opening(cursor) => LocatorState::Opening(cursor@),
            Progress::Asking(cursor) => LocatorState::Asking(cursor@),
            Progress::Listening(cursor) => LocatorState::Listening(cursor@),
            Progress::Reopening(cursor) => LocatorState::Reopening(cursor@),
            Progress::Found(resource) => LocatorState::Found(resource@),
            Progress::Failed(e) => LocatorState::Failed(*e),
        }
    }
}

/// The search for the instrument, as a state machine.
#[derive(Debug)]
pub struct Locator {
    progress: Progress,
}

impl View for Locator {
    type V = LocatorState;

    closed spec fn view(&self) -> LocatorState {
        self.progress@
    }
}

/// The bytes of a text.
fn bytes_of(text: &str) -> (bytes: Vec<u8>)
    ensures
        bytes@ == text.spec_bytes(),
{
    slice_to_vec(text.as_bytes())
}

/// The text of resource pattern `pattern`.
fn pattern_bytes(pattern: usize) -> (bytes: Vec<u8>)
    ensures
        bytes@ == pattern_text(pattern as nat),
{
    if pattern == 0 {
        bytes_of("?*::INSTR")
    } else if pattern == 1 {
        bytes_of("USB?*INSTR")
    } else {
        bytes_of("TCPIP?*INSTR")
    }
}

/// The progress that follows pattern `pattern`.
fn progress_after_pattern(pattern: usize) -> (next: Progress)
    requires
        pattern < PATTERN_COUNT,
    ensures
        next@ == after_pattern(pattern as nat),
        next@.well_formed(),
{
    if pattern + 1 < PATTERN_COUNT {
        Progress::Listing(pattern + 1)
    } else {
        Progress::Failed(ErrorKind::DeviceNotFound)
    }
}

/// The progress that follows the resource in hand.
fn progress_after_candidate(cursor: Cursor) -> (next: Progress)
    requires
        cursor@.well_formed(),
    ensures
        next@ == after_candidate(cursor@),
        next@.well_formed(),
{
    if cursor.index < cursor.candidates.len() - 1 {
        Progress::Opening(
            Cursor {
                pattern: cursor.pattern,
                candidates: cursor.candidates,
                index: cursor.index + 1,
            },
        )
    } else {
        progress_after_pattern(cursor.pattern)
    }
}

/// A copy of the resource in hand.
fn resource_of(cursor: &Cursor) -> (resource: Vec<u8>)
    requires
        cursor@.well_formed(),
    ensures
        resource@ == cursor@.resource(),
{
    slice_to_vec(cursor.candidates[cursor.index].as_slice())
}

/// Composes the resource string of the instrument at a TCP host:
/// `TCPIP::<host>::INSTR`.
pub fn resource_for_host(host: &[u8]) -> (resource: Vec<u8>)
    ensures
        resource@ == tcpip_resource(host@),
{
    let mut resource: Vec<u8> = Vec::new();
    append_bytes(&mut resource, "TCPIP::".as_bytes());
    append_bytes(&mut resource, host);
    append_bytes(&mut resource, "::INSTR".as_bytes());
    assert(resource@ =~= tcpip_resource(host@));
    resource
}

impl Locator {
    #[verifier::type_invariant]
    spec fn inv(self) -> bool {
        self@.well_formed()
    }

    /// A search that goes through the resource patterns.
    pub fn discover() -> (locator: Locator)
        ensures
            locator@ == LocatorState::Listing(0),
    {
        Locator { progress: Progress::Listing(0) }
    }

    /// A search that goes straight to the instrument at a TCP host.
    pub fn direct(host: &[u8]) -> (locator: Locator)
        ensures
            locator@ == LocatorState::Direct(tcpip_resource(host@)),
    {
        Locator { progress: Progress::Direct(resource_for_host(host)) }
    }

    /// Whether the search has ended, with the instrument or without.
    pub fn is_finished(&self) -> (done: bool)
        ensures
            done == self@.finished(),
    {
        match &self.progress {
            Progress::Found(_) => true,
            Progress::Failed(_) => true,
            _ => false,
        }
    }

    /// What to do on the transport next.
    pub fn request(&self) -> (request: LocatorRequest)
        ensures
            request@ == locator_request(self@),
    {
        proof {
            use_type_invariant(self);
        }
        match &self.progress {
            Progress::Direct(resource) => LocatorRequest::Open(
                slice_to_vec(resource.as_slice()),
                OPERATIONAL_TIMEOUT_SECS,
            ),
            Progress::Listing(pattern) => LocatorRequest::List(pattern_bytes(*pattern)),
            Progress::Opening(cursor) => LocatorRequest::Open(
                resource_of(cursor),
                PROBE_TIMEOUT_SECS,
            ),
            Progress::Asking(_) => LocatorRequest::Write(bytes_of("*IDN?\n")),
            Progress::Listening(_) => LocatorRequest::ReadLine,
            Progress::Reopening(cursor) => LocatorRequest::Open(
                resource_of(cursor),
                OPERATIONAL_TIMEOUT_SECS,
            ),
            Progress::Found(resource) => LocatorRequest::Found(slice_to_vec(resource.as_slice())),
            Progress::Failed(e) => LocatorRequest::Failed(*e),
        }
    }

    /// Takes what came of the last request and moves on.
    pub fn advance(self, event: LocatorEvent) -> (next: Locator)
        ensures
            next@ == locator_step(self@, event@),
    {
        proof {
            use_type_invariant(&self);
        }
        let progress = match self.progress {
            Progress::Direct(resource) => match event {
                LocatorEvent::Opened => Progress::Found(resource),
                _ => Progress::Failed(ErrorKind::Transport),
            },
            Progress::Listing(pattern) => match event {
                LocatorEvent::Listed(list) => {
                    if list.len() > 0 {
                        Progress::Opening(Cursor { pattern, candidates: list, index: 0 })
                    } else {
                        progress_after_pattern(pattern)
                    }
                },
                _ => progress_after_pattern(pattern),
            },
            Progress::Opening(cursor) => match event {
                LocatorEvent::Opened => Progress::Asking(cursor),
                _ => progress_after_candidate(cursor),
            },
            Progress::Asking(cursor) => match event {
                LocatorEvent::Written => Progress::Listening(cursor),
                _ => progress_after_candidate(cursor),
            },
            Progress::Listening(cursor) => match event {
                LocatorEvent::Line(line) => {
                    if contains_bytes(line.as_slice(), "Batronix".as_bytes()) {
                        Progress::Reopening(cursor)
                    } else {
                        progress_after_candidate(cursor)
                    }
                },
                _ => progress_after_candidate(cursor),
            },
            Progress::Reopening(cursor) => match event {
                LocatorEvent::Opened => Progress::Found(resource_of(&cursor)),
                _ => progress_after_candidate(cursor),
            },
            Progress::Found(resource) => Progress::Found(resource),
            Progress::Failed(e) => Progress::Failed(e),
        };
        Locator { progress }
    }
}

} // verus!
