//! The stream relay: events out of the lines of an upstream event stream, and
//! the session that hands them on, one at a time and in order.

use crate::config::Config;
use crate::constants::KEEPALIVE_TEXT;
use crate::reassembly::{
    all_lines, lemma_lines_concat, line_views, lines_of, tail_of, Reassembler,
};
use crate::text::{chars_of, stands_at, starts_with, trim, trim_bounds};
use std::collections::VecDeque;
use vstd::prelude::*;
use vstd::utf8::{decode_utf8, valid_utf8};

verus! {

/// What a line has to begin with, once trimmed, to carry an event.
pub const DATA_PREFIX: &'static str = "data: ";

/// `DATA_PREFIX` as a sequence of characters.
pub open spec fn data_prefix() -> Seq<char> {
    "data: "@
}

/// The payload of the event that `line` carries: `line` is trimmed, and where
/// what is left begins with `DATA_PREFIX` and goes on after it, the payload is
/// all that follows the prefix. Any other line carries no event.
pub open spec fn event_payload(line: Seq<char>) -> Option<Seq<char>> {
    let text = trim(line);
    if starts_with(text, data_prefix()) && text.len() > data_prefix().len() {
        Some(text.skip(data_prefix().len() as int))
    } else {
        None
    }
}

/// One event of the stream: the payload of a data line. It is never empty.
#[derive(Debug, PartialEq, Eq)]
pub struct StreamEvent {
    payload: String,
}

impl View for StreamEvent {
    type V = Seq<char>;

    /// The payload.
    closed spec fn view(&self) -> Seq<char> {
        self.payload@
    }
}

impl StreamEvent {
    #[verifier::type_invariant]
    closed spec fn has_payload(&self) -> bool {
        self.payload@.len() > 0
    }

    /// The payload: what followed the prefix on the event's line.
    pub fn payload(&self) -> (payload: &str)
        ensures
            payload@ == self@,
            payload@.len() > 0,
    {
        proof {
            use_type_invariant(self);
        }
        self.payload.as_str()
    }

    /// The payload, owned.
    pub fn into_payload(self) -> (payload: String)
        ensures
            payload@ == self@,
            payload@.len() > 0,
    {
        proof {
            use_type_invariant(&self);
        }
        self.payload
    }
}

/// The event extractor: the event that `line` carries, if it carries one.
pub fn create_event(line: &str) -> (event: Option<StreamEvent>)
    ensures
        match event {
            Some(e) => event_payload(line@) == Some(e@),
            None => event_payload(line@) is None,
        },
{
    let chars = chars_of(line);
    let prefix = chars_of(DATA_PREFIX);
    let (start, end) = trim_bounds(chars.as_slice());
    proof {
        let text = trim(line@);
        if prefix@.len() <= text.len() {
            assert(text.take(prefix@.len() as int) =~= chars@.subrange(
                start as int,
                start + prefix@.len(),
            ));
        }
    }
    if end - start > prefix.len() && stands_at(chars.as_slice(), prefix.as_slice(), start) {
        let payload = line.substring_char(start + prefix.len(), end).to_owned();
        Some(StreamEvent { payload })
    } else {
        None
    }
}

/// The text that `String::from_utf8_lossy` makes of `bytes`: the text that
/// `bytes` encode in UTF-8, with U+FFFD in place of what is no valid encoding.
pub uninterp spec fn utf8_lossy(bytes: Seq<u8>) -> Seq<char>;

/// `String::from_utf8_lossy`, which decodes `bytes` as UTF-8 and never fails.
/// The contract names its result, and says what it is where `bytes` are valid
/// UTF-8: the text that they encode. Of the text made of other bytes it says
/// no more than the name.
#[verifier::external_body]
fn decode_lossy(bytes: &[u8]) -> (text: String)
    ensures
        text@ == utf8_lossy(bytes@),
        valid_utf8(bytes@) ==> text@ == decode_utf8(bytes@),
{
    String::from_utf8_lossy(bytes).into_owned()
}

/// The payload of the event that the line `line` of the stream carries. An
/// empty line carries none; any other is decoded and then read as text.
pub open spec fn payload_of_line(line: Seq<u8>) -> Option<Seq<char>> {
    if line.len() == 0 {
        None
    } else {
        event_payload(utf8_lossy(line))
    }
}

/// The payloads of the events that `lines` carry, in the order of the lines.
pub open spec fn events_of(lines: Seq<Seq<u8>>) -> Seq<Seq<char>>
    decreases lines.len(),
{
    if lines.len() == 0 {
        Seq::empty()
    } else {
        let before = events_of(lines.drop_last());
        match payload_of_line(lines.last()) {
            Some(payload) => before.push(payload),
            None => before,
        }
    }
}

/// The payloads of `events`, in order.
pub open spec fn payloads(events: Seq<StreamEvent>) -> Seq<Seq<char>> {
    Seq::new(events.len(), |i: int| events[i]@)
}

/// The events of one run of lines followed by another are those of the first
/// followed by those of the second.
pub proof fn lemma_events_concat(a: Seq<Seq<u8>>, b: Seq<Seq<u8>>)
    ensures
        events_of(a + b) == events_of(a) + events_of(b),
    decreases b.len(),
{
    if b.len() > 0 {
        assert((a + b).drop_last() =~= a + b.drop_last());
        lemma_events_concat(a, b.drop_last());
    }
}

/// The event that one line of the stream carries, if it carries one. Where the
/// line is valid UTF-8, the line is read as the text that it encodes.
pub fn line_event(line: &[u8]) -> (event: Option<StreamEvent>)
    ensures
        match event {
            Some(e) => payload_of_line(line@) == Some(e@),
            None => payload_of_line(line@) is None,
        },
        line@.len() > 0 && valid_utf8(line@) ==> payload_of_line(line@) == event_payload(
            decode_utf8(line@),
        ),
{
    if line.len() == 0 {
        None
    } else {
        let text = decode_lossy(line);
        create_event(text.as_str())
    }
}

/// Takes the next chunk of the stream into `reassembler` and returns the events
/// of the lines that the chunk completes, in the order of the lines. What
/// follows the chunk's last newline stays in `reassembler`.
pub fn process_buffer(reassembler: &mut Reassembler, chunk: &[u8]) -> (events: Vec<StreamEvent>)
    ensures
        final(reassembler)@ == tail_of(old(reassembler)@ + chunk@),
        payloads(events@) == events_of(lines_of(old(reassembler)@ + chunk@)),
{
    let lines = reassembler.feed(chunk);
    let mut events: Vec<StreamEvent> = Vec::new();
    let mut i: usize = 0;
    while i < lines.len()
        invariant
            i <= lines.len(),
            payloads(events@) == events_of(line_views(lines@).take(i as int)),
        decreases lines.len() - i,
    {
        proof {
            let seen = line_views(lines@).take(i + 1);
            assert(seen.drop_last() =~= line_views(lines@).take(i as int));
        }
        match line_event(lines[i].as_slice()) {
            Some(event) => {
                events.push(event);
            },
            None => {},
        }
        i += 1;
    }
    proof {
        assert(line_views(lines@).take(lines.len() as int) =~= line_views(lines@));
    }
    events
}

/// Why a relay has stopped.
#[derive(Debug, Clone, Copy, PartialEq, Eq, Structural)]
pub enum CloseReason {
    /// The upstream stream ended and all its events were handed on.
    Completed,
    /// Reading the upstream stream failed.
    UpstreamFailed,
    /// The consumer is gone.
    ClientDisconnected,
    /// The caller reported what the relay had not asked for.
    OutOfTurn,
}

/// Where a relay stands.
#[derive(Debug, Clone, Copy, PartialEq, Eq, Structural)]
pub enum Phase {
    /// It waits for the next chunk of the upstream stream.
    Reading,
    /// It waits for the channel to take the event handed out; the upstream
    /// stream is still open.
    Sending,
    /// It waits for the channel to take the event handed out; the upstream
    /// stream has ended.
    Draining,
    /// It has stopped.
    Closed(CloseReason),
}

/// What the caller of a relay reports to it.
#[derive(Debug)]
pub enum RelayInput {
    /// The next chunk of the upstream stream has arrived.
    Chunk(Vec<u8>),
    /// The upstream stream has ended.
    End,
    /// Reading the upstream stream has failed.
    Failed,
    /// The channel has taken the event handed out last.
    Delivered,
    /// The consumer is gone: the channel takes no more events.
    Disconnected,
}

/// What a relay asks of its caller next.
#[derive(Debug, PartialEq, Eq)]
pub enum RelayAction {
    /// Read the next chunk of the upstream stream, and report it, or that the
    /// stream has ended or failed.
    Read,
    /// Put this event into the channel, waiting for room while the channel is
    /// full, and report that it was taken, or that the consumer is gone.
    Send(StreamEvent),
    /// Stop: close the producer's side of the channel and let go of the
    /// upstream connection.
    Close(CloseReason),
}

/// What a relay asks for, with an event given by its payload.
pub enum RelayOutput {
    Read,
    Send(Seq<char>),
    Close(CloseReason),
}

impl View for RelayAction {
    type V = RelayOutput;

    open spec fn view(&self) -> RelayOutput {
        match *self {
            RelayAction::Read => RelayOutput::Read,
            RelayAction::Send(event) => RelayOutput::Send(event@),
            RelayAction::Close(reason) => RelayOutput::Close(reason),
        }
    }
}

/// What a relay holds: the fragment of the stream read so far, the payloads of
/// the events that wait to be handed out, in order, and where it stands.
pub struct RelayState {
    pub fragment: Seq<u8>,
    pub pending: Seq<Seq<char>>,
    pub phase: Phase,
}

impl RelayState {
    /// A relay at the start of a stream.
    pub open spec fn start() -> RelayState {
        RelayState { fragment: Seq::empty(), pending: Seq::empty(), phase: Phase::Reading }
    }

    /// A relay that has stopped: it holds nothing any more.
    pub open spec fn stopped(reason: CloseReason) -> RelayState {
        RelayState { fragment: Seq::empty(), pending: Seq::empty(), phase: Phase::Closed(reason) }
    }
}

/// The last line of a stream that has ended with the fragment `fragment`: the
/// fragment, unless it is empty.
pub open spec fn last_line(fragment: Seq<u8>) -> Seq<Seq<u8>> {
    if fragment.len() > 0 {
        seq![fragment]
    } else {
        Seq::empty()
    }
}

/// How a relay goes on with `queue` to hand out: the first event of the queue
/// is sent; with an empty queue the relay reads on, or stops where the stream
/// has ended.
pub open spec fn hand_on(fragment: Seq<u8>, queue: Seq<Seq<char>>, ended: bool) -> (
    RelayState,
    RelayOutput,
) {
    if queue.len() > 0 {
        (
            RelayState {
                fragment,
                pending: queue.drop_first(),
                phase: if ended {
                    Phase::Draining
                } else {
                    Phase::Sending
                },
            },
            RelayOutput::Send(queue.first()),
        )
    } else if ended {
        (RelayState::stopped(CloseReason::Completed), RelayOutput::Close(CloseReason::Completed))
    } else {
        (RelayState { fragment, pending: queue, phase: Phase::Reading }, RelayOutput::Read)
    }
}

/// How a relay stops.
pub open spec fn stop(reason: CloseReason) -> (RelayState, RelayOutput) {
    (RelayState::stopped(reason), RelayOutput::Close(reason))
}

/// The relay's rule: the state that follows `s` on `input`, and what the
/// relay asks for.
///
/// A relay that has stopped stays so. That the consumer is gone stops a relay
/// at once, whatever waits. A chunk is taken only by a relay that reads: the
/// events of the lines that it completes join the queue. The end of the stream
/// turns the fragment into the last line. A failed read stops the relay, and
/// the fragment is dropped. An event that was taken makes room for the next;
/// the relay reads on only when the queue is empty. Anything else was not asked
/// for and stops the relay.
pub open spec fn relay_step(s: RelayState, input: RelayInput) -> (RelayState, RelayOutput) {
    match (s.phase, input) {
        (Phase::Closed(reason), _) => (s, RelayOutput::Close(reason)),
        (_, RelayInput::Disconnected) => stop(CloseReason::ClientDisconnected),
        (Phase::Reading, RelayInput::Chunk(chunk)) => hand_on(
            tail_of(s.fragment + chunk@),
            s.pending + events_of(lines_of(s.fragment + chunk@)),
            false,
        ),
        (Phase::Reading, RelayInput::End) => hand_on(
            Seq::empty(),
            s.pending + events_of(last_line(s.fragment)),
            true,
        ),
        (Phase::Reading, RelayInput::Failed) => stop(CloseReason::UpstreamFailed),
        (Phase::Sending, RelayInput::Delivered) => hand_on(s.fragment, s.pending, false),
        (Phase::Draining, RelayInput::Delivered) => hand_on(s.fragment, s.pending, true),
        _ => stop(CloseReason::OutOfTurn),
    }
}

/// One relay session: the producer's side of the relay of one upstream stream.
/// It owns the reassembly buffer and the events that wait for the channel.
pub struct RelaySession {
    reassembler: Reassembler,
    pending: VecDeque<StreamEvent>,
    phase: Phase,
}

impl View for RelaySession {
    type V = RelayState;

    closed spec fn view(&self) -> RelayState {
        RelayState {
            fragment: self.reassembler@,
            pending: payloads(self.pending@),
            phase: self.phase,
        }
    }
}

impl RelaySession {
    /// A session at the start of a stream, with room for `capacity` bytes of a
    /// line. It waits for the first chunk.
    pub fn new(capacity: usize) -> (session: RelaySession)
        ensures
            session@ == RelayState::start(),
    {
        let session = RelaySession {
            reassembler: Reassembler::new(capacity),
            pending: VecDeque::new(),
            phase: Phase::Reading,
        };
        proof {
            assert(payloads(session.pending@) =~= Seq::<Seq<char>>::empty());
        }
        session
    }

    /// Where the session stands.
    pub fn phase(&self) -> (phase: Phase)
        ensures
            phase == self@.phase,
    {
        self.phase
    }

    /// How many events wait to be handed out.
    pub fn pending(&self) -> (count: usize)
        ensures
            count == self@.pending.len(),
    {
        self.pending.len()
    }

    /// The fragment of the stream that the session holds.
    pub fn fragment(&self) -> (bytes: &[u8])
        ensures
            bytes@ == self@.fragment,
    {
        self.reassembler.fragment()
    }

    /// Takes what the caller reports and says what to do next, by the relay's
    /// rule.
    pub fn advance(&mut self, input: RelayInput) -> (action: RelayAction)
        ensures
            final(self)@ == relay_step(old(self)@, input).0,
            action@ == relay_step(old(self)@, input).1,
    {
        match self.phase {
            Phase::Closed(reason) => RelayAction::Close(reason),
            Phase::Reading => match input {
                RelayInput::Chunk(chunk) => {
                    let events = process_buffer(&mut self.reassembler, chunk.as_slice());
                    self.enqueue(events);
                    self.hand_on(false)
                },
                RelayInput::End => {
                    let ghost fragment = self.reassembler@;
                    let last = self.reassembler.finish();
                    let event = match last {
                        Some(line) => line_event(line.as_slice()),
                        None => None,
                    };
                    proof {
                        let lines = last_line(fragment);
                        if lines.len() > 0 {
                            assert(events_of(lines.drop_last()) =~= Seq::<Seq<char>>::empty());
                        }
                    }
                    match event {
                        Some(event) => {
                            proof {
                                assert(payloads(self.pending@.push(event)) =~= payloads(
                                    self.pending@,
                                ) + events_of(last_line(fragment)));
                            }
                            self.pending.push_back(event);
                        },
                        None => {},
                    }
                    self.hand_on(true)
                },
                RelayInput::Failed => self.stop(CloseReason::UpstreamFailed),
                RelayInput::Delivered => self.stop(CloseReason::OutOfTurn),
                RelayInput::Disconnected => self.stop(CloseReason::ClientDisconnected),
            },
            Phase::Sending => match input {
                RelayInput::Delivered => self.hand_on(false),
                RelayInput::Disconnected => self.stop(CloseReason::ClientDisconnected),
                _ => self.stop(CloseReason::OutOfTurn),
            },
            Phase::Draining => match input {
                RelayInput::Delivered => self.hand_on(true),
                RelayInput::Disconnected => self.stop(CloseReason::ClientDisconnected),
                _ => self.stop(CloseReason::OutOfTurn),
            },
        }
    }

    /// Puts `events` at the end of the queue.
    fn enqueue(&mut self, events: Vec<StreamEvent>)
        ensures
            final(self)@.fragment == old(self)@.fragment,
            final(self)@.phase == old(self)@.phase,
            final(self)@.pending == old(self)@.pending + payloads(events@),
    {
        let ghost before = self.pending@;
        for event in it: events
            invariant
                it.seq() == events@,
                self.reassembler == old(self).reassembler,
                self.phase == old(self).phase,
                payloads(self.pending@) == payloads(before) + payloads(events@).take(it.index()),
        {
            proof {
                assert(payloads(self.pending@.push(event)) =~= payloads(self.pending@).push(
                    event@,
                ));
            }
            self.pending.push_back(event);
        }
    }

    /// Goes on with the queue as it is.
    fn hand_on(&mut self, ended: bool) -> (action: RelayAction)
        ensures
            final(self)@ == hand_on(old(self)@.fragment, old(self)@.pending, ended).0,
            action@ == hand_on(old(self)@.fragment, old(self)@.pending, ended).1,
    {
        let ghost queue = self.pending@;
        match self.pending.pop_front() {
            Some(event) => {
                proof {
                    assert(payloads(self.pending@) =~= payloads(queue).drop_first());
                }
                self.phase = if ended {
                    Phase::Draining
                } else {
                    Phase::Sending
                };
                RelayAction::Send(event)
            },
            None => {
                if ended {
                    self.stop(CloseReason::Completed)
                } else {
                    self.phase = Phase::Reading;
                    RelayAction::Read
                }
            },
        }
    }

    /// Stops, and lets go of what the session holds.
    fn stop(&mut self, reason: CloseReason) -> (action: RelayAction)
        ensures
            final(self)@ == RelayState::stopped(reason),
            action@ == RelayOutput::Close(reason),
    {
        let _ = self.reassembler.finish();
        self.pending.clear();
        self.phase = Phase::Closed(reason);
        proof {
            assert(payloads(self.pending@) =~= Seq::<Seq<char>>::empty());
        }
        RelayAction::Close(reason)
    }
}

/// What the relay of one streaming response is set up with: the channel
/// between the session and the writer of the response, the keepalive frames
/// that the writer puts in while no event comes, and the session.
pub struct RelaySetup {
    /// How many events the channel holds at most. A producer that finds it
    /// full waits: nothing else keeps a slow client from filling the memory.
    pub channel_capacity: usize,
    /// After how many seconds without an event a keepalive frame is written.
    pub keepalive_interval: u64,
    /// The text of a keepalive frame. It is a comment and no event.
    pub keepalive_text: &'static str,
    /// The session, at the start of the stream.
    pub session: RelaySession,
}

/// Sets up the relay of a streaming response under the configuration `config`.
pub fn handle_sse_response(config: &Config) -> (setup: RelaySetup)
    ensures
        setup.channel_capacity == config.sse_channel_capacity,
        setup.keepalive_interval == config.sse_keepalive_interval,
        setup.keepalive_text@ == KEEPALIVE_TEXT@,
        setup.session@ == RelayState::start(),
{
    RelaySetup {
        channel_capacity: config.sse_channel_capacity,
        keepalive_interval: config.sse_keepalive_interval,
        keepalive_text: KEEPALIVE_TEXT,
        session: RelaySession::new(config.sse_buffer_capacity),
    }
}

/// The state of a relay that started at the beginning of a stream and has
/// been told `inputs`, one after another.
pub open spec fn state_after(inputs: Seq<RelayInput>) -> RelayState
    decreases inputs.len(),
{
    if inputs.len() == 0 {
        RelayState::start()
    } else {
        relay_step(state_after(inputs.drop_last()), inputs.last()).0
    }
}

/// The payloads of the events that such a relay has handed out to be sent, in
/// the order in which it handed them out.
pub open spec fn sent_after(inputs: Seq<RelayInput>) -> Seq<Seq<char>>
    decreases inputs.len(),
{
    if inputs.len() == 0 {
        Seq::empty()
    } else {
        let before = sent_after(inputs.drop_last());
        match relay_step(state_after(inputs.drop_last()), inputs.last()).1 {
            RelayOutput::Send(payload) => before.push(payload),
            _ => before,
        }
    }
}

/// The part of the upstream stream that such a relay has taken: the chunks
/// that were reported to it while it was reading, one after another.
pub open spec fn taken_after(inputs: Seq<RelayInput>) -> Seq<u8>
    decreases inputs.len(),
{
    if inputs.len() == 0 {
        Seq::empty()
    } else {
        let before = taken_after(inputs.drop_last());
        match (state_after(inputs.drop_last()).phase, inputs.last()) {
            (Phase::Reading, RelayInput::Chunk(chunk)) => before + chunk@,
            _ => before,
        }
    }
}

/// What holds of a relay after any inputs, phase by phase.
spec fn relay_accounts(inputs: Seq<RelayInput>) -> bool {
    let s = state_after(inputs);
    let sent = sent_after(inputs);
    let stream = taken_after(inputs);
    match s.phase {
        Phase::Reading => {
            &&& s.pending.len() == 0
            &&& s.fragment == tail_of(stream)
            &&& sent == events_of(lines_of(stream))
        },
        Phase::Sending => {
            &&& s.fragment == tail_of(stream)
            &&& sent + s.pending == events_of(lines_of(stream))
        },
        Phase::Draining => sent + s.pending == events_of(all_lines(stream)),
        Phase::Closed(CloseReason::Completed) => sent == events_of(all_lines(stream)),
        Phase::Closed(_) => sent.is_prefix_of(events_of(all_lines(stream))),
    }
}

/// The events of a stream that has ended are those of its complete lines,
/// followed by that of its last line.
proof fn lemma_events_of_all_lines(stream: Seq<u8>)
    ensures
        events_of(all_lines(stream)) == events_of(lines_of(stream)) + events_of(
            last_line(tail_of(stream)),
        ),
{
    assert(all_lines(stream) =~= lines_of(stream) + last_line(tail_of(stream)));
    lemma_events_concat(lines_of(stream), last_line(tail_of(stream)));
}

/// The account holds after any inputs: it holds at the start, and every step
/// of the relay's rule keeps it.
proof fn lemma_relay_accounts(inputs: Seq<RelayInput>)
    ensures
        relay_accounts(inputs),
    decreases inputs.len(),
{
    if inputs.len() > 0 {
        let earlier = inputs.drop_last();
        lemma_relay_accounts(earlier);
        let s = state_after(earlier);
        let sent = sent_after(earlier);
        let stream = taken_after(earlier);
        lemma_events_of_all_lines(stream);
        let queue = match (s.phase, inputs.last()) {
            (Phase::Reading, RelayInput::Chunk(chunk)) => {
                lemma_lines_concat(stream, chunk@);
                lemma_events_concat(lines_of(stream), lines_of(tail_of(stream) + chunk@));
                s.pending + events_of(lines_of(s.fragment + chunk@))
            },
            (Phase::Reading, RelayInput::End) => s.pending + events_of(last_line(s.fragment)),
            _ => s.pending,
        };
        if queue.len() > 0 {
            assert(sent.push(queue.first()) + queue.drop_first() =~= sent + queue);
        }
    }
}

/// The relay keeps the order of the stream and loses nothing: whatever a relay
/// is told, and in whatever order, the events that it hands out are, in this
/// order, the first events of the stream that it has taken. A relay that has
/// stopped because the stream was completed has handed out every event of the
/// stream, the one of an unfinished last line included. A relay that waits for
/// a chunk holds no event back: it has handed out the events of all the lines
/// that have ended, and holds the fragment of the stream.
pub proof fn lemma_relay_keeps_order(inputs: Seq<RelayInput>)
    ensures
        sent_after(inputs).is_prefix_of(events_of(all_lines(taken_after(inputs)))),
        state_after(inputs).phase == Phase::Closed(CloseReason::Completed) ==> sent_after(inputs)
            == events_of(all_lines(taken_after(inputs))),
        state_after(inputs).phase == Phase::Reading ==> {
            &&& state_after(inputs).pending.len() == 0
            &&& state_after(inputs).fragment == tail_of(taken_after(inputs))
            &&& sent_after(inputs) == events_of(lines_of(taken_after(inputs)))
        },
{
    lemma_relay_accounts(inputs);
    lemma_events_of_all_lines(taken_after(inputs));
}

/// What a relay hands out does not depend on how the stream was cut: two
/// relays that have completed the same stream, told of it in different chunks
/// and at whatever pace their events were taken, have handed out the same
/// events in the same order.
pub proof fn lemma_relay_split_invariance(a: Seq<RelayInput>, b: Seq<RelayInput>)
    requires
        state_after(a).phase == Phase::Closed(CloseReason::Completed),
        state_after(b).phase == Phase::Closed(CloseReason::Completed),
        taken_after(a) == taken_after(b),
    ensures
        sent_after(a) == sent_after(b),
{
    lemma_relay_keeps_order(a);
    lemma_relay_keeps_order(b);
}

} // verus!
