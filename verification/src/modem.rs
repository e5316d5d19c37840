//! A handle to the Mercury modem: what is known of it, what is said to it and what is made of
//! its reports.

use vstd::prelude::*;
use vstd::utf8::{decode_utf8, valid_utf8};
use crate::bandwidth::{lemma_bandwidth_texts, Bandwidth};
use crate::handshake::{Handshake, HandshakeView, Stage};
use crate::message::{meaning, parse_message, ConnectionView, Message, MessageView, OpenConnection};
use crate::text::{lemma_split_field, lemma_split_last, split_on};
use crate::wire::{
    decode_lossy, frame, framed, lossy_text, on_off, segments, segments_of_parts, switch, DELIMITER,
};

verus! {

/// What is known of the modem. `W` is the write-only connection to mercury's ARQ/control port.
#[derive(Debug)]
pub struct State<W> {
    /// An active write-only connection to the mercury ARQ/control port
    pub tcp_connection: Option<W>,
    /// Current number of pending bytes in the ARQ transmit buffer
    pub buffer_len: usize,
    /// The text of the latest measured SNR, empty before the first one. Text that is no number
    /// stands for zero.
    pub snr: String,
    /// The current mode and bitrate `(mode_name, bps)`
    pub bitrate: (String, usize),
    /// Whether PTT is engaged
    pub ptt: bool,
    /// The station we're connected to, if any
    pub connection: Option<OpenConnection>,
}

/// What a `State` holds.
pub struct StateView<W> {
    pub tcp_connection: Option<W>,
    pub buffer_len: usize,
    pub snr: Seq<char>,
    pub bitrate: (Seq<char>, usize),
    pub ptt: bool,
    pub connection: Option<ConnectionView>,
}

impl<W> View for State<W> {
    type V = StateView<W>;

    open spec fn view(&self) -> StateView<W> {
        StateView {
            tcp_connection: self.tcp_connection,
            buffer_len: self.buffer_len,
            snr: self.snr@,
            bitrate: (self.bitrate.0@, self.bitrate.1),
            ptt: self.ptt,
            connection: match self.connection {
                Some(connection) => Some(connection@),
                None => None,
            },
        }
    }
}

impl<W> StateView<W> {
    /// The state before anything is heard of the modem.
    pub open spec fn initial() -> StateView<W> {
        StateView {
            tcp_connection: None,
            buffer_len: 0,
            snr: Seq::empty(),
            bitrate: (Seq::empty(), 0),
            ptt: false,
            connection: None,
        }
    }

    /// The state once `message` has been heard.
    pub open spec fn after(self, message: MessageView) -> StateView<W> {
        match message {
            MessageView::Buffer(n) => StateView { buffer_len: n, ..self },
            MessageView::Snr(snr) => StateView { snr, ..self },
            MessageView::Bitrate(level, bps) => StateView { bitrate: (level, bps), ..self },
            MessageView::Ptt(ptt) => StateView { ptt, ..self },
            MessageView::Connected(connection, _) => StateView {
                connection: Some(connection),
                ..self
            },
            MessageView::Disconnected => StateView { connection: None, ..self },
            _ => self,
        }
    }

    /// What goes out to mercury for `command`: nothing unless there is a connection to mercury.
    pub open spec fn sends(self, command: Seq<char>) -> Option<Seq<char>> {
        match self.tcp_connection {
            Some(_) => Some(framed(command)),
            None => None,
        }
    }
}

impl<W> Default for State<W> {
    fn default() -> (r: State<W>)
        ensures
            r@ == StateView::<W>::initial(),
    {
        State {
            tcp_connection: None,
            buffer_len: 0,
            snr: String::new(),
            bitrate: (String::new(), 0),
            ptt: false,
            connection: None,
        }
    }
}

/// The request for an ARQ connection from station `source` to station `destination`.
pub open spec fn connect_command(source: Seq<char>, destination: Seq<char>) -> Seq<char> {
    "CONNECT "@ + source + " "@ + destination
}

/// What an optional text holds.
pub open spec fn text_of(r: Option<String>) -> Option<Seq<char>> {
    match r {
        Some(text) => Some(text@),
        None => None,
    }
}

/// What can come from the control port.
#[derive(Debug)]
pub enum ControlEvent {
    /// The bytes of one message, without the delimiter.
    Segment(Vec<u8>),
    /// The port was closed, or reading from it failed.
    Closed,
}

/// What the listener does next.
#[derive(Debug)]
pub enum ListenerAction {
    /// Waits for the next event. What was heard is given.
    Continue(Message),
    /// Stops.
    Stop,
}

/// A handle to interface with the mercury modem
#[derive(Debug)]
pub struct Modem<W> {
    pub state: State<W>,
}

impl<W> View for Modem<W> {
    type V = StateView<W>;

    open spec fn view(&self) -> StateView<W> {
        self.state@
    }
}

impl<W> Default for Modem<W> {
    fn default() -> (r: Modem<W>)
        ensures
            r@ == StateView::<W>::initial(),
    {
        Modem { state: State::default() }
    }
}

impl<W> Modem<W> {
    /// Whether we're connected to mercury or not
    pub fn is_mercury_connected(&self) -> (r: bool)
        ensures
            r == (self@.tcp_connection is Some),
    {
        self.state.tcp_connection.is_some()
    }

    /// Whether we're connected to another station or not
    pub fn is_connected(&self) -> (r: bool)
        ensures
            r == (self@.connection is Some),
    {
        self.state.connection.is_some()
    }

    /// Attempt to connect to mercury. Says what has to be done for it, in `Handshake`; the
    /// modem itself changes when `mercury_opened` is called at its end.
    ///
    /// - `destination` is the ip:port of mercury
    /// - `mycall` the callsign of this station
    /// - `listen` whether to listen to incoming ARQ connections
    pub fn connect_mercury(
        &mut self,
        destination: String,
        mycall: String,
        listen: bool,
        bandwidth: Bandwidth,
    ) -> (r: Handshake)
        ensures
            *final(self) == *old(self),
            r@ == (HandshakeView {
                destination: destination@,
                mycall: mycall@,
                listen,
                bandwidth,
                stage: Stage::Dialing,
            }),
    {
        Handshake::new(destination, mycall, listen, bandwidth)
    }

    /// Save the write half of a connection to mercury for later use
    pub fn mercury_opened(&mut self, write: W)
        ensures
            final(self)@ == (StateView { tcp_connection: Some(write), ..old(self)@ }),
    {
        self.state.tcp_connection = Some(write);
    }

    /// Disconnect from mercury
    pub fn disconnect_mercury(&mut self)
        ensures
            final(self)@ == (StateView { tcp_connection: None, ..old(self)@ }),
    {
        self.state.tcp_connection = None;
    }

    /// Send disconnect request to remote station
    pub fn disconnect(&mut self) -> (r: Option<String>)
        ensures
            *final(self) == *old(self),
            text_of(r) == old(self)@.sends("DISCONNECT"@),
    {
        self.write_to_control(String::from_str("DISCONNECT"))
    }

    /// Send ARQ connect request to remote station
    /// - `source` is the initiating callsign, i.e. the current station
    /// - `destination` is the destination callsign that you're trying to connect to
    pub fn connect(&mut self, source: &str, destination: &str) -> (r: Option<String>)
        ensures
            *final(self) == *old(self),
            text_of(r) == old(self)@.sends(connect_command(source@, destination@)),
    {
        let mut command = String::from_str("CONNECT ");
        command.append(source);
        command.append(" ");
        command.append(destination);
        self.write_to_control(command)
    }

    /// Abort connection with remote station
    pub fn abort(&mut self) -> (r: Option<String>)
        ensures
            *final(self) == *old(self),
            text_of(r) == old(self)@.sends("ABORT"@),
    {
        self.write_to_control(String::from_str("ABORT"))
    }

    /// Set the maximum channel bandwidth
    pub fn set_bandwidth(&mut self, bandwidth: Bandwidth) -> (r: Option<String>)
        ensures
            *final(self) == *old(self),
            text_of(r) == old(self)@.sends(bandwidth.name()),
    {
        self.write_to_control(bandwidth.to_string())
    }

    /// Set the listen state
    pub fn set_listen(&mut self, listen: bool) -> (r: Option<String>)
        ensures
            *final(self) == *old(self),
            text_of(r) == old(self)@.sends("LISTEN "@ + on_off(listen)),
    {
        self.write_to_control(String::from_str("LISTEN ").concat(switch(listen)))
    }

    /// Set the public state
    pub fn set_public(&mut self, public: bool) -> (r: Option<String>)
        ensures
            *final(self) == *old(self),
            text_of(r) == old(self)@.sends("PUBLIC "@ + on_off(public)),
    {
        self.write_to_control(String::from_str("PUBLIC ").concat(switch(public)))
    }

    /// Gets the number of bytes remaining in the TX buffer
    pub fn get_tx_buffer_len(&self) -> (r: usize)
        ensures
            r == self@.buffer_len,
    {
        self.state.buffer_len
    }

    /// Gives what is to be written to the mercury control port for the provided command, if
    /// there is a connection to write it to.
    pub fn write_to_control(&self, msg: String) -> (r: Option<String>)
        ensures
            text_of(r) == self@.sends(msg@),
    {
        if self.state.tcp_connection.is_some() {
            // Mercury denotes the end of a command with \r so we append that to the end of every command
            Some(frame(msg))
        } else {
            None
        }
    }

    /// Keeps track of what one message says.
    pub fn handle_message(&mut self, text: &str) -> (r: Message)
        ensures
            r@ == meaning(text@),
            final(self)@ == old(self)@.after(meaning(text@)),
    {
        let message = parse_message(text);
        match &message {
            Message::Buffer(n) => {
                // Keep track of the buffer size
                self.state.buffer_len = *n;
            },
            Message::Snr(snr) => {
                // Keep track of the SNR
                self.state.snr = snr.clone();
            },
            Message::Bitrate(level, bps) => {
                // Keep track of the mode/level and current throughput in bits/s
                self.state.bitrate = (level.clone(), *bps);
            },
            Message::Ptt(ptt) => {
                // Keep track of the PTT state
                self.state.ptt = *ptt;
            },
            Message::Connected(connection, _) => {
                // Keep track of the station we're connected to
                self.state.connection = Some(
                    OpenConnection {
                        source_call: connection.source_call.clone(),
                        destination_call: connection.destination_call.clone(),
                        bandwidth: connection.bandwidth,
                    },
                );
            },
            Message::Disconnected => {
                // Keep track of when we get disconnected from the target station (whether intentionally or by timeout)
                self.state.connection = None;
            },
            _ => {},
        }
        message
    }

    /// Handles what comes from the mercury control port: keeps track of what messages say, and
    /// gives the connection up when the port is closed.
    pub fn mercury_control_listener(&mut self, event: ControlEvent) -> (r: ListenerAction)
        ensures
            match event {
                ControlEvent::Segment(bytes) => {
                    &&& r matches ListenerAction::Continue(message)
                    &&& message@ == meaning(lossy_text(bytes@))
                    &&& final(self)@ == old(self)@.after(meaning(lossy_text(bytes@)))
                    &&& valid_utf8(bytes@) ==> lossy_text(bytes@) == decode_utf8(bytes@)
                },
                ControlEvent::Closed => {
                    &&& r is Stop
                    &&& final(self)@ == (StateView { tcp_connection: None, ..old(self)@ })
                },
            },
    {
        match event {
            ControlEvent::Segment(bytes) => {
                // Convert message bytes into a string
                let text = decode_lossy(bytes.as_slice());
                ListenerAction::Continue(self.handle_message(text.as_str()))
            },
            ControlEvent::Closed => {
                // Close write half of the connection just to be sure.
                self.disconnect_mercury();
                ListenerAction::Stop
            },
        }
    }
}

impl<W> StateView<W> {
    /// The state once `messages` have been heard, one after the other.
    pub open spec fn after_all(self, messages: Seq<MessageView>) -> StateView<W>
        decreases messages.len(),
    {
        if messages.len() == 0 {
            self
        } else {
            self.after_all(messages.drop_last()).after(messages.last())
        }
    }
}

/// What the bytes that come in say, message by message.
pub open spec fn messages_in(bytes: Seq<u8>) -> Seq<MessageView> {
    segments(bytes).map_values(|segment: Seq<u8>| meaning(lossy_text(segment)))
}

impl<W> StateView<W> {
    /// The state once the control port has given `bytes` and was closed.
    pub open spec fn listened(self, bytes: Seq<u8>) -> StateView<W> {
        StateView { tcp_connection: None, ..self.after_all(messages_in(bytes)) }
    }
}

/// The bytes that come in can be handled in parts, cut behind any delimiter: what is known in the
/// end is the same, whether the port stays open or is closed after each part.
pub proof fn bytes_can_be_heard_in_parts<W>(state: StateView<W>, a: Seq<u8>, b: Seq<u8>)
    requires
        a.len() == 0 || a.last() == DELIMITER,
    ensures
        state.after_all(messages_in(a + b)) == state.after_all(messages_in(a)).after_all(
            messages_in(b),
        ),
        state.listened(a + b) == state.listened(a).listened(b),
{
    segments_of_parts(a, b);
    assert(messages_in(a + b) =~= messages_in(a) + messages_in(b));
    lemma_after_both(state, messages_in(a), messages_in(b));
    lemma_after_closed(state.after_all(messages_in(a)), messages_in(b));
}

/// Messages can be heard in two parts.
proof fn lemma_after_both<W>(state: StateView<W>, a: Seq<MessageView>, b: Seq<MessageView>)
    ensures
        state.after_all(a + b) == state.after_all(a).after_all(b),
    decreases b.len(),
{
    if b.len() == 0 {
        assert(a + b =~= a);
    } else {
        assert((a + b).drop_last() =~= a + b.drop_last());
        lemma_after_both(state, a, b.drop_last());
    }
}

/// What is heard does not depend on the connection to mercury.
proof fn lemma_after_closed<W>(state: StateView<W>, messages: Seq<MessageView>)
    ensures
        (StateView { tcp_connection: None, ..state }).after_all(messages) == (StateView {
            tcp_connection: None,
            ..state.after_all(messages)
        }),
    decreases messages.len(),
{
    if messages.len() > 0 {
        lemma_after_closed(state, messages.drop_last());
    }
}

/// Whether `message` tells of the connection with a station.
pub open spec fn tells_connection(message: MessageView) -> bool {
    message is Connected || message is Disconnected
}

/// Nothing that mercury says opens or closes the connection to mercury.
pub proof fn reports_keep_the_mercury_connection<W>(
    state: StateView<W>,
    messages: Seq<MessageView>,
)
    ensures
        state.after_all(messages).tcp_connection == state.tcp_connection,
    decreases messages.len(),
{
    if messages.len() > 0 {
        reports_keep_the_mercury_connection(state, messages.drop_last());
    }
}

/// One thing that happens to the modem.
pub enum Step<W> {
    /// `mercury_opened` with this write half.
    Opened(W),
    /// `disconnect_mercury`.
    Disconnected,
    /// The end of what the control port gives.
    PortClosed,
    /// A message from the control port.
    Heard(MessageView),
    /// A command, or the start of a connection to mercury.
    Commanded,
}

impl<W> Step<W> {
    /// Whether this ends the connection to mercury.
    pub open spec fn closes(self) -> bool {
        self is Disconnected || self is PortClosed
    }
}

impl<W> StateView<W> {
    /// The state once `step` has happened.
    pub open spec fn stepped(self, step: Step<W>) -> StateView<W> {
        match step {
            Step::Opened(write) => StateView { tcp_connection: Some(write), ..self },
            Step::Disconnected => StateView { tcp_connection: None, ..self },
            Step::PortClosed => StateView { tcp_connection: None, ..self },
            Step::Heard(message) => self.after(message),
            Step::Commanded => self,
        }
    }

    /// The state once `steps` have happened, one after the other.
    pub open spec fn run(self, steps: Seq<Step<W>>) -> StateView<W>
        decreases steps.len(),
    {
        if steps.len() == 0 {
            self
        } else {
            self.run(steps.drop_last()).stepped(steps.last())
        }
    }
}

/// Whether the connection to mercury is not ended from step `i` on.
pub open spec fn kept_open<W>(steps: Seq<Step<W>>, i: int) -> bool {
    forall|j: int| i <= j < steps.len() ==> !(#[trigger] steps[j]).closes()
}

/// We're connected to mercury if and only if a connection was opened, or there from the start, and
/// since then neither `disconnect_mercury` was called nor the control port closed.
pub proof fn mercury_is_connected_since_an_opening<W>(state: StateView<W>, steps: Seq<Step<W>>)
    ensures
        state.run(steps).tcp_connection is Some <==> {
            ||| state.tcp_connection is Some && kept_open(steps, 0)
            ||| exists|i: int|
                0 <= i < steps.len() && #[trigger] steps[i] is Opened && kept_open(steps, i)
        },
    decreases steps.len(),
{
    if steps.len() > 0 {
        let before = steps.drop_last();
        let last = steps.last();
        let n = before.len() as int;
        mercury_is_connected_since_an_opening(state, before);
        assert(forall|j: int| 0 <= j < n ==> before[j] == #[trigger] steps[j]);
        assert(steps[n] == last);
        assert forall|i: int| 0 <= i <= n implies (kept_open(steps, i) <==> kept_open(before, i)
            && !last.closes()) by {
            if kept_open(steps, i) {
                assert(!steps[n].closes());
                assert forall|j: int| i <= j < n implies !(#[trigger] before[j]).closes() by {
                    assert(!steps[j].closes());
                }
            }
        }
        if state.run(before).tcp_connection is Some && !last.closes() {
            if !(state.tcp_connection is Some && kept_open(before, 0)) {
                let i = choose|i: int|
                    0 <= i < n && #[trigger] before[i] is Opened && kept_open(before, i);
                assert(steps[i] is Opened && kept_open(steps, i));
            }
        }
        if last is Opened {
            assert(kept_open(before, n));
            assert(steps[n] is Opened && kept_open(steps, n));
        } else if exists|i: int|
            0 <= i < steps.len() && #[trigger] steps[i] is Opened && kept_open(steps, i) {
            let i = choose|i: int|
                0 <= i < steps.len() && #[trigger] steps[i] is Opened && kept_open(steps, i);
            assert(before[i] is Opened && kept_open(before, i));
        }
    }
}

/// What is written goes out on the connection that was opened last, if it was not ended since.
pub proof fn last_opening_is_written_to<W>(
    state: StateView<W>,
    steps: Seq<Step<W>>,
    i: int,
    write: W,
)
    requires
        0 <= i < steps.len(),
        steps[i] == Step::Opened(write),
        forall|j: int|
            i < j < steps.len() ==> !(#[trigger] steps[j]).closes() && !(steps[j] is Opened),
    ensures
        state.run(steps).tcp_connection == Some(write),
    decreases steps.len(),
{
    if i < steps.len() - 1 {
        assert(!steps.last().closes() && !(steps.last() is Opened));
        last_opening_is_written_to(state, steps.drop_last(), i, write);
    }
}

/// The station that we're connected to is the one of the last report that tells of a connection:
/// it stays through all others, and is none after the report of its end.
pub proof fn last_report_tells_the_connection<W>(
    state: StateView<W>,
    messages: Seq<MessageView>,
    i: int,
)
    requires
        0 <= i < messages.len(),
        tells_connection(messages[i]),
        forall|j: int| i < j < messages.len() ==> !tells_connection(#[trigger] messages[j]),
    ensures
        match messages[i] {
            MessageView::Connected(connection, _) => state.after_all(messages).connection == Some(
                connection,
            ),
            _ => state.after_all(messages).connection is None,
        },
    decreases messages.len(),
{
    if i < messages.len() - 1 {
        assert(!tells_connection(messages.last()));
        last_report_tells_the_connection(state, messages.drop_last(), i);
    }
}

/// Without a report that tells of a connection, the station that we're connected to stays.
pub proof fn other_reports_keep_the_connection<W>(state: StateView<W>, messages: Seq<MessageView>)
    requires
        forall|j: int| 0 <= j < messages.len() ==> !tells_connection(#[trigger] messages[j]),
    ensures
        state.after_all(messages).connection == state.connection,
    decreases messages.len(),
{
    if messages.len() > 0 {
        assert(!tells_connection(messages.last()));
        other_reports_keep_the_connection(state, messages.drop_last());
    }
}

/// A report changes nothing but what it tells of.
pub proof fn reports_change_what_they_tell<W>(state: StateView<W>, message: MessageView)
    ensures
        state.after(message).tcp_connection == state.tcp_connection,
        !(message is Buffer) ==> state.after(message).buffer_len == state.buffer_len,
        !(message is Snr) ==> state.after(message).snr == state.snr,
        !(message is Bitrate) ==> state.after(message).bitrate == state.bitrate,
        !(message is Ptt) ==> state.after(message).ptt == state.ptt,
        !tells_connection(message) ==> state.after(message).connection == state.connection,
{
}

/// What no report tells of stays as it was: the number of bytes in the transmit buffer, the SNR, the
/// mode and the bitrate, and the PTT state.
pub proof fn what_is_not_reported_stays<W>(state: StateView<W>, messages: Seq<MessageView>)
    ensures
        (forall|j: int| 0 <= j < messages.len() ==> !(#[trigger] messages[j] is Buffer))
            ==> state.after_all(messages).buffer_len == state.buffer_len,
        (forall|j: int| 0 <= j < messages.len() ==> !(#[trigger] messages[j] is Snr))
            ==> state.after_all(messages).snr == state.snr,
        (forall|j: int| 0 <= j < messages.len() ==> !(#[trigger] messages[j] is Bitrate))
            ==> state.after_all(messages).bitrate == state.bitrate,
        (forall|j: int| 0 <= j < messages.len() ==> !(#[trigger] messages[j] is Ptt))
            ==> state.after_all(messages).ptt == state.ptt,
    decreases messages.len(),
{
    if messages.len() > 0 {
        let before = messages.drop_last();
        what_is_not_reported_stays(state, before);
        assert(forall|j: int| 0 <= j < before.len() ==> #[trigger] before[j] == messages[j]);
        assert(messages[messages.len() - 1] == messages.last());
    }
}

/// The number of bytes in the transmit buffer is the one of the last report of it.
pub proof fn last_report_tells_the_buffer<W>(
    state: StateView<W>,
    messages: Seq<MessageView>,
    i: int,
    n: usize,
)
    requires
        0 <= i < messages.len(),
        messages[i] == MessageView::Buffer(n),
        forall|j: int| i < j < messages.len() ==> !(#[trigger] messages[j] is Buffer),
    ensures
        state.after_all(messages).buffer_len == n,
    decreases messages.len(),
{
    if i < messages.len() - 1 {
        assert(!(messages.last() is Buffer));
        last_report_tells_the_buffer(state, messages.drop_last(), i, n);
    }
}

/// The SNR is the one of the last report of it.
pub proof fn last_report_tells_the_snr<W>(
    state: StateView<W>,
    messages: Seq<MessageView>,
    i: int,
    snr: Seq<char>,
)
    requires
        0 <= i < messages.len(),
        messages[i] == MessageView::Snr(snr),
        forall|j: int| i < j < messages.len() ==> !(#[trigger] messages[j] is Snr),
    ensures
        state.after_all(messages).snr == snr,
    decreases messages.len(),
{
    if i < messages.len() - 1 {
        assert(!(messages.last() is Snr));
        last_report_tells_the_snr(state, messages.drop_last(), i, snr);
    }
}

/// The mode and the bitrate are those of the last report of them.
pub proof fn last_report_tells_the_bitrate<W>(
    state: StateView<W>,
    messages: Seq<MessageView>,
    i: int,
    level: Seq<char>,
    bps: usize,
)
    requires
        0 <= i < messages.len(),
        messages[i] == MessageView::Bitrate(level, bps),
        forall|j: int| i < j < messages.len() ==> !(#[trigger] messages[j] is Bitrate),
    ensures
        state.after_all(messages).bitrate == (level, bps),
    decreases messages.len(),
{
    if i < messages.len() - 1 {
        assert(!(messages.last() is Bitrate));
        last_report_tells_the_bitrate(state, messages.drop_last(), i, level, bps);
    }
}

/// The PTT state is the one of the last report of it that could be understood.
pub proof fn last_report_tells_ptt<W>(
    state: StateView<W>,
    messages: Seq<MessageView>,
    i: int,
    ptt: bool,
)
    requires
        0 <= i < messages.len(),
        messages[i] == MessageView::Ptt(ptt),
        forall|j: int| i < j < messages.len() ==> !(#[trigger] messages[j] is Ptt),
    ensures
        state.after_all(messages).ptt == ptt,
    decreases messages.len(),
{
    if i < messages.len() - 1 {
        assert(!(messages.last() is Ptt));
        last_report_tells_ptt(state, messages.drop_last(), i, ptt);
    }
}

/// Acknowledgements, keep-alives, and messages that are unknown, incomplete or hold an unknown
/// value change nothing.
pub proof fn unusable_reports_change_nothing<W>(state: StateView<W>, message: MessageView)
    requires
        match message {
            MessageView::Accepted
            | MessageView::Rejected
            | MessageView::KeepAlive
            | MessageView::UnknownPtt(_)
            | MessageView::UnknownBandwidth(_)
            | MessageView::Incomplete
            | MessageView::Unknown(_) => true,
            _ => false,
        },
    ensures
        state.after(message) == state,
{
}

/// A request for a connection names the two stations so that they can be told apart again, if
/// neither callsign has a space.
pub proof fn connect_request_names_the_stations(source: Seq<char>, destination: Seq<char>)
    requires
        !source.contains(' '),
        !destination.contains(' '),
    ensures
        split_on(connect_command(source, destination), ' ') == seq![
            "CONNECT"@,
            source,
            destination,
        ],
{
    reveal_strlit("CONNECT");
    reveal_strlit("CONNECT ");
    reveal_strlit(" ");
    let command = connect_command(source, destination);
    assert(command =~= "CONNECT"@.push(' ') + (source.push(' ') + destination));
    lemma_split_field("CONNECT"@, ' ', source.push(' ') + destination);
    lemma_split_field(source, ' ', destination);
    lemma_split_last(destination, ' ');
    assert(split_on(command, ' ') =~= seq!["CONNECT"@, source, destination]);
}

/// A request for a connection stays one command, whatever the callsigns, if neither holds a `\r`.
pub proof fn connect_request_is_one_command(source: Seq<char>, destination: Seq<char>)
    requires
        !source.contains('\r'),
        !destination.contains('\r'),
    ensures
        !connect_command(source, destination).contains('\r'),
{
    reveal_strlit("CONNECT ");
    reveal_strlit(" ");
    let command = connect_command(source, destination);
    assert forall|i: int| 0 <= i < command.len() implies command[i] != '\r' by {
        let n = source.len() as int;
        if 8 <= i < 8 + n {
            assert(command[i] == source[i - 8]);
        } else if i >= 9 + n {
            assert(command[i] == destination[i - 9 - n]);
        }
    }
}

/// The commands without callsigns stay one command each.
pub proof fn other_requests_are_one_command(on: bool, bandwidth: Bandwidth)
    ensures
        !"DISCONNECT"@.contains('\r'),
        !"ABORT"@.contains('\r'),
        !bandwidth.name().contains('\r'),
        !("LISTEN "@ + on_off(on)).contains('\r'),
        !("PUBLIC "@ + on_off(on)).contains('\r'),
{
    reveal_strlit("DISCONNECT");
    reveal_strlit("ABORT");
    reveal_strlit("LISTEN ");
    reveal_strlit("PUBLIC ");
    reveal_strlit("ON");
    reveal_strlit("OFF");
    lemma_bandwidth_texts();
}

/// What is known of the modem is what its fields hold, one for one.
pub proof fn states_are_viewed_so<W>(modem: Modem<W>, connection: OpenConnection)
    ensures
        modem@ == modem.state@,
        modem@.tcp_connection == modem.state.tcp_connection,
        modem@.buffer_len == modem.state.buffer_len,
        modem@.snr == modem.state.snr@,
        modem@.bitrate.0 == modem.state.bitrate.0@,
        modem@.bitrate.1 == modem.state.bitrate.1,
        modem@.ptt == modem.state.ptt,
        modem@.connection is Some <==> modem.state.connection is Some,
        modem.state.connection == Some(connection) ==> modem@.connection == Some(connection@),
{
}

/// What is sent is given back as its text, and nothing as nothing.
pub proof fn sent_text_is_viewed_so(text: String)
    ensures
        text_of(Some(text)) == Some(text@),
        text_of(None) is None,
{
}

/// At first nothing is known: there are no connections, the numbers are zero, the texts are empty
/// and PTT is off.
pub proof fn nothing_is_known_at_first<W>()
    ensures
        StateView::<W>::initial().tcp_connection is None,
        StateView::<W>::initial().buffer_len == 0,
        StateView::<W>::initial().snr.len() == 0,
        StateView::<W>::initial().bitrate.0.len() == 0,
        StateView::<W>::initial().bitrate.1 == 0,
        !StateView::<W>::initial().ptt,
        StateView::<W>::initial().connection is None,
{
}

/// A command goes out, with a carriage return behind it, if and only if there is a connection to
/// mercury. What else is known of the modem does not matter: two states that agree on whether there
/// is a connection send the same.
pub proof fn commands_go_out_while_connected<W>(
    state: StateView<W>,
    other: StateView<W>,
    command: Seq<char>,
)
    ensures
        state.tcp_connection is Some ==> state.sends(command) == Some(command.push('\r')),
        state.tcp_connection is None ==> state.sends(command) is None,
        (state.tcp_connection is Some <==> other.tcp_connection is Some) ==> state.sends(command)
            == other.sends(command),
{
}

/// No report keeps a command from going out: what is sent after any reports is what was sent before
/// them.
pub proof fn reports_do_not_stop_commands<W>(
    state: StateView<W>,
    messages: Seq<MessageView>,
    command: Seq<char>,
)
    ensures
        state.after_all(messages).sends(command) == state.sends(command),
        state.tcp_connection is Some ==> state.after_all(messages).sends(command) == Some(
            command.push('\r'),
        ),
{
    reports_keep_the_mercury_connection(state, messages);
}

/// What goes out for each request, to the last character.
pub proof fn requests_are_written_so<W>(
    state: StateView<W>,
    source: Seq<char>,
    destination: Seq<char>,
    on: bool,
    bandwidth: Bandwidth,
)
    requires
        state.tcp_connection is Some,
    ensures
        state.sends("DISCONNECT"@) == Some("DISCONNECT\r"@),
        state.sends("ABORT"@) == Some("ABORT\r"@),
        state.sends(connect_command(source, destination)) == Some(
            "CONNECT "@ + source + " "@ + destination + "\r"@,
        ),
        state.sends("LISTEN "@ + on_off(on)) == Some(
            if on {
                "LISTEN ON\r"@
            } else {
                "LISTEN OFF\r"@
            },
        ),
        state.sends("PUBLIC "@ + on_off(on)) == Some(
            if on {
                "PUBLIC ON\r"@
            } else {
                "PUBLIC OFF\r"@
            },
        ),
        state.sends(bandwidth.name()) == Some(
            match bandwidth {
                Bandwidth::BW500 => "BW500\r"@,
                Bandwidth::BW2300 => "BW2300\r"@,
                Bandwidth::BW2750 => "BW2750\r"@,
            },
        ),
{
    reveal_strlit("\r");
    reveal_strlit("DISCONNECT");
    reveal_strlit("DISCONNECT\r");
    reveal_strlit("ABORT");
    reveal_strlit("ABORT\r");
    reveal_strlit("ON");
    reveal_strlit("OFF");
    reveal_strlit("LISTEN ");
    reveal_strlit("LISTEN ON\r");
    reveal_strlit("LISTEN OFF\r");
    reveal_strlit("PUBLIC ");
    reveal_strlit("PUBLIC ON\r");
    reveal_strlit("PUBLIC OFF\r");
    reveal_strlit("BW500\r");
    reveal_strlit("BW2300\r");
    reveal_strlit("BW2750\r");
    lemma_bandwidth_texts();
    assert("DISCONNECT"@.push('\r') =~= "DISCONNECT\r"@);
    assert("ABORT"@.push('\r') =~= "ABORT\r"@);
    assert(connect_command(source, destination).push('\r') =~= "CONNECT "@ + source + " "@
        + destination + "\r"@);
    assert(("LISTEN "@ + on_off(on)).push('\r') =~= if on {
        "LISTEN ON\r"@
    } else {
        "LISTEN OFF\r"@
    });
    assert(("PUBLIC "@ + on_off(on)).push('\r') =~= if on {
        "PUBLIC ON\r"@
    } else {
        "PUBLIC OFF\r"@
    });
    assert("BW500"@.push('\r') =~= "BW500\r"@);
    assert("BW2300"@.push('\r') =~= "BW2300\r"@);
    assert("BW2750"@.push('\r') =~= "BW2750\r"@);
}

/// What a report tells is what is known then, whatever was known before.
pub proof fn reports_are_taken_as_they_are<W>(
    state: StateView<W>,
    n: usize,
    text: Seq<char>,
    on: bool,
    connection: ConnectionView,
)
    ensures
        state.after(MessageView::Buffer(n)).buffer_len == n,
        state.after(MessageView::Snr(text)).snr == text,
        state.after(MessageView::Bitrate(text, n)).bitrate.0 == text,
        state.after(MessageView::Bitrate(text, n)).bitrate.1 == n,
        state.after(MessageView::Ptt(on)).ptt == on,
        state.after(MessageView::Connected(connection, text)).connection == Some(connection),
        state.after(MessageView::Disconnected).connection is None,
{
}

/// Messages are heard one after the other, from the first to the last.
pub proof fn messages_are_heard_in_order<W>(
    state: StateView<W>,
    messages: Seq<MessageView>,
    message: MessageView,
)
    ensures
        state.after_all(Seq::<MessageView>::empty()) == state,
        state.after_all(messages.push(message)) == state.after_all(messages).after(message),
{
    assert(messages.push(message).drop_last() =~= messages);
}

/// Each message in the bytes that come in is taken for what its text says, in order. Once the port
/// is closed, nothing is different but the connection to mercury.
pub proof fn bytes_are_heard_message_by_message<W>(state: StateView<W>, bytes: Seq<u8>, i: int)
    requires
        0 <= i < segments(bytes).len(),
    ensures
        messages_in(bytes).len() == segments(bytes).len(),
        messages_in(bytes)[i] == meaning(lossy_text(segments(bytes)[i])),
        state.listened(bytes).tcp_connection is None,
        state.listened(bytes).buffer_len == state.after_all(messages_in(bytes)).buffer_len,
        state.listened(bytes).snr == state.after_all(messages_in(bytes)).snr,
        state.listened(bytes).bitrate == state.after_all(messages_in(bytes)).bitrate,
        state.listened(bytes).ptt == state.after_all(messages_in(bytes)).ptt,
        state.listened(bytes).connection == state.after_all(messages_in(bytes)).connection,
{
}

} // verus!
