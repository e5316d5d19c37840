//! What Mercury reports on its control port.

use vstd::prelude::*;
use crate::bandwidth::{lemma_bandwidth_texts, only_names_and_widths_are_read, Bandwidth};
use crate::text::{
    decimal, decimal_reads_back, is_digit, lemma_decimal, lemma_split_field, lemma_split_last,
    number, parse_number, split, split_joins_back, split_on, text_eq, texts, trim, trimmed,
    trimmed_is_trimmed, white_space,
};
use crate::wire::on_off;

verus! {

/// Represents an open connection with a target station
#[derive(Debug)]
pub struct OpenConnection {
    /// The callsign of the station that initiated the connection
    pub source_call: String,
    /// The callsign of the destination station
    pub destination_call: String,
    /// The negotiated bandwidth between both stations
    pub bandwidth: Bandwidth,
}

/// What an `OpenConnection` holds.
pub struct ConnectionView {
    pub source_call: Seq<char>,
    pub destination_call: Seq<char>,
    pub bandwidth: Bandwidth,
}

impl View for OpenConnection {
    type V = ConnectionView;

    open spec fn view(&self) -> ConnectionView {
        ConnectionView {
            source_call: self.source_call@,
            destination_call: self.destination_call@,
            bandwidth: self.bandwidth,
        }
    }
}

/// One message from mercury.
#[derive(Debug)]
pub enum Message {
    /// `OK`: the last command was accepted.
    Accepted,
    /// `WRONG`: the last command was malformed, or failed in some other way.
    Rejected,
    /// `IAMALIVE`: a keep-alive.
    KeepAlive,
    /// `BUFFER`: the number of bytes that wait in the ARQ transmit buffer. Text that is no
    /// number counts as zero.
    Buffer(usize),
    /// `SN`: the text of the measured SNR, without the white space around it.
    Snr(String),
    /// `BITRATE`: the mode, and the throughput in bits/s. Text that is no number counts as zero.
    Bitrate(String, usize),
    /// `PTT`: whether PTT is engaged.
    Ptt(bool),
    /// `PTT` with a state that is neither `ON` nor `OFF`, which is given.
    UnknownPtt(String),
    /// `CONNECTED`: the connection with a station, and its bandwidth as mercury wrote it.
    Connected(OpenConnection, String),
    /// `CONNECTED` with a bandwidth that is not supported, which is given.
    UnknownBandwidth(String),
    /// `DISCONNECTED`: the connection with a station has ended.
    Disconnected,
    /// A known message that lacks a field.
    Incomplete,
    /// Any other message, as it came.
    Unknown(String),
}

/// What a `Message` says.
pub enum MessageView {
    Accepted,
    Rejected,
    KeepAlive,
    Buffer(usize),
    Snr(Seq<char>),
    Bitrate(Seq<char>, usize),
    Ptt(bool),
    UnknownPtt(Seq<char>),
    Connected(ConnectionView, Seq<char>),
    UnknownBandwidth(Seq<char>),
    Disconnected,
    Incomplete,
    Unknown(Seq<char>),
}

impl View for Message {
    type V = MessageView;

    open spec fn view(&self) -> MessageView {
        match self {
            Message::Accepted => MessageView::Accepted,
            Message::Rejected => MessageView::Rejected,
            Message::KeepAlive => MessageView::KeepAlive,
            Message::Buffer(n) => MessageView::Buffer(*n),
            Message::Snr(snr) => MessageView::Snr(snr@),
            Message::Bitrate(level, bps) => MessageView::Bitrate(level@, *bps),
            Message::Ptt(ptt) => MessageView::Ptt(*ptt),
            Message::UnknownPtt(state) => MessageView::UnknownPtt(state@),
            Message::Connected(connection, bandwidth) => MessageView::Connected(
                connection@,
                bandwidth@,
            ),
            Message::UnknownBandwidth(bandwidth) => MessageView::UnknownBandwidth(bandwidth@),
            Message::Disconnected => MessageView::Disconnected,
            Message::Incomplete => MessageView::Incomplete,
            Message::Unknown(text) => MessageView::Unknown(text@),
        }
    }
}

/// The number in a field: white space around it does not count, and text that is no number is
/// zero.
pub open spec fn count_in(field: Seq<char>) -> usize {
    match number(trimmed(field)) {
        Some(n) => n,
        None => 0,
    }
}

/// What the text of one message says. Its fields stand between single spaces, and the first one
/// tells what kind of message it is. Fields beyond those that the kind has are ignored.
pub open spec fn meaning(text: Seq<char>) -> MessageView {
    let fields = split_on(text, ' ');
    let kind = fields[0];
    if kind == "OK"@ {
        MessageView::Accepted
    } else if kind == "WRONG"@ {
        MessageView::Rejected
    } else if kind == "IAMALIVE"@ {
        MessageView::KeepAlive
    } else if kind == "BUFFER"@ {
        if fields.len() < 2 {
            MessageView::Incomplete
        } else {
            MessageView::Buffer(count_in(fields[1]))
        }
    } else if kind == "SN"@ {
        if fields.len() < 2 {
            MessageView::Incomplete
        } else {
            MessageView::Snr(trimmed(fields[1]))
        }
    } else if kind == "BITRATE"@ {
        if fields.len() < 3 {
            MessageView::Incomplete
        } else {
            MessageView::Bitrate(fields[1], count_in(fields[2]))
        }
    } else if kind == "PTT"@ {
        if fields.len() < 2 {
            MessageView::Incomplete
        } else if fields[1] == on_off(true) {
            MessageView::Ptt(true)
        } else if fields[1] == on_off(false) {
            MessageView::Ptt(false)
        } else {
            MessageView::UnknownPtt(fields[1])
        }
    } else if kind == "CONNECTED"@ {
        if fields.len() < 4 {
            MessageView::Incomplete
        } else {
            match Bandwidth::named(fields[3]) {
                Some(bandwidth) => MessageView::Connected(
                    ConnectionView {
                        source_call: fields[1],
                        destination_call: fields[2],
                        bandwidth,
                    },
                    fields[3],
                ),
                None => MessageView::UnknownBandwidth(fields[3]),
            }
        }
    } else if kind == "DISCONNECTED"@ {
        MessageView::Disconnected
    } else {
        MessageView::Unknown(text)
    }
}

/// Reads the number in a field.
fn parse_count(field: &str) -> (r: usize)
    ensures
        r == count_in(field@),
{
    match parse_number(trim(field)) {
        Some(n) => n,
        None => 0,
    }
}

/// Reads one message.
pub fn parse_message(text: &str) -> (r: Message)
    ensures
        r@ == meaning(text@),
{
    let fields = split(text, ' ');
    let ghost model = split_on(text@, ' ');
    assert(model.len() == fields.len());
    assert(forall|i: int| 0 <= i < fields.len() ==> texts(fields@)[i] == (#[trigger] fields[i])@);
    let kind = fields[0];
    if text_eq(kind, "OK") {
        Message::Accepted
    } else if text_eq(kind, "WRONG") {
        Message::Rejected
    } else if text_eq(kind, "IAMALIVE") {
        Message::KeepAlive
    } else if text_eq(kind, "BUFFER") {
        if fields.len() < 2 {
            return Message::Incomplete;
        }
        Message::Buffer(parse_count(fields[1]))
    } else if text_eq(kind, "SN") {
        if fields.len() < 2 {
            return Message::Incomplete;
        }
        Message::Snr(String::from_str(trim(fields[1])))
    } else if text_eq(kind, "BITRATE") {
        if fields.len() < 3 {
            return Message::Incomplete;
        }
        Message::Bitrate(String::from_str(fields[1]), parse_count(fields[2]))
    } else if text_eq(kind, "PTT") {
        if fields.len() < 2 {
            return Message::Incomplete;
        }
        if text_eq(fields[1], "ON") {
            Message::Ptt(true)
        } else if text_eq(fields[1], "OFF") {
            Message::Ptt(false)
        } else {
            Message::UnknownPtt(String::from_str(fields[1]))
        }
    } else if text_eq(kind, "CONNECTED") {
        if fields.len() < 4 {
            return Message::Incomplete;
        }
        match Bandwidth::parse(fields[3]) {
            Some(bandwidth) => Message::Connected(
                OpenConnection {
                    source_call: String::from_str(fields[1]),
                    destination_call: String::from_str(fields[2]),
                    bandwidth,
                },
                String::from_str(fields[3]),
            ),
            None => Message::UnknownBandwidth(String::from_str(fields[3])),
        }
    } else if text_eq(kind, "DISCONNECTED") {
        Message::Disconnected
    } else {
        Message::Unknown(String::from_str(text))
    }
}

/// A report of the transmit buffer is read as the number of bytes that it gives.
pub proof fn buffer_report_is_read(n: usize)
    ensures
        meaning("BUFFER "@ + decimal(n as nat)) == MessageView::Buffer(n),
{
    let field = decimal(n as nat);
    lemma_kinds();
    lemma_count(n);
    lemma_two_fields("BUFFER "@, "BUFFER"@, field);
}

/// A report of the SNR is read as the text that it gives, if that has no spaces and no white
/// space around it.
pub proof fn snr_report_is_read(snr: Seq<char>)
    requires
        !snr.contains(' '),
        snr.len() > 0 ==> !white_space(snr[0]) && !white_space(snr.last()),
    ensures
        meaning("SN "@ + snr) == MessageView::Snr(snr),
{
    lemma_kinds();
    trimmed_is_trimmed(snr);
    lemma_two_fields("SN "@, "SN"@, snr);
}

/// A report of the bitrate is read as the mode and the throughput that it gives, if the mode has
/// no spaces.
pub proof fn bitrate_report_is_read(level: Seq<char>, bps: usize)
    requires
        !level.contains(' '),
    ensures
        meaning("BITRATE "@ + level + " "@ + decimal(bps as nat)) == MessageView::Bitrate(
            level,
            bps,
        ),
{
    let text = "BITRATE "@ + level + " "@ + decimal(bps as nat);
    lemma_kinds();
    lemma_count(bps);
    assert(text =~= "BITRATE"@.push(' ') + (level.push(' ') + decimal(bps as nat)));
    lemma_split_field("BITRATE"@, ' ', level.push(' ') + decimal(bps as nat));
    lemma_split_field(level, ' ', decimal(bps as nat));
    lemma_split_last(decimal(bps as nat), ' ');
    assert(split_on(text, ' ') =~= seq!["BITRATE"@, level, decimal(bps as nat)]);
}

/// A report of PTT is read as the state that it gives.
pub proof fn ptt_report_is_read(ptt: bool)
    ensures
        meaning("PTT "@ + on_off(ptt)) == MessageView::Ptt(ptt),
{
    lemma_kinds();
    reveal_strlit("ON");
    reveal_strlit("OFF");
    assert("ON"@.len() != "OFF"@.len());
    lemma_two_fields("PTT "@, "PTT"@, on_off(ptt));
}

/// A report of a connection is read as the stations and the bandwidth that it gives, whether the
/// bandwidth is written as name or as width, if the callsigns have no spaces.
pub proof fn connected_report_is_read(
    source: Seq<char>,
    destination: Seq<char>,
    width: Seq<char>,
    bandwidth: Bandwidth,
)
    requires
        !source.contains(' '),
        !destination.contains(' '),
        Bandwidth::named(width) == Some(bandwidth),
    ensures
        meaning("CONNECTED "@ + source + " "@ + destination + " "@ + width)
            == MessageView::Connected(
            ConnectionView { source_call: source, destination_call: destination, bandwidth },
            width,
        ),
{
    let text = "CONNECTED "@ + source + " "@ + destination + " "@ + width;
    lemma_kinds();
    lemma_bandwidth_texts();
    assert(!width.contains(' '));
    let from_destination = destination.push(' ') + width;
    let from_source = source.push(' ') + from_destination;
    assert(text =~= "CONNECTED"@.push(' ') + from_source);
    lemma_split_field("CONNECTED"@, ' ', from_source);
    lemma_split_field(source, ' ', from_destination);
    lemma_split_field(destination, ' ', width);
    lemma_split_last(width, ' ');
    assert(split_on(text, ' ') =~= seq!["CONNECTED"@, source, destination, width]);
}

/// The messages without fields are read as what they are.
pub proof fn plain_reports_are_read()
    ensures
        meaning("OK"@) == MessageView::Accepted,
        meaning("WRONG"@) == MessageView::Rejected,
        meaning("IAMALIVE"@) == MessageView::KeepAlive,
        meaning("DISCONNECTED"@) == MessageView::Disconnected,
{
    lemma_kinds();
    lemma_split_last("OK"@, ' ');
    lemma_split_last("WRONG"@, ' ');
    lemma_split_last("IAMALIVE"@, ' ');
    lemma_split_last("DISCONNECTED"@, ' ');
}

/// The split of a kind and one field.
proof fn lemma_two_fields(start: Seq<char>, kind: Seq<char>, field: Seq<char>)
    requires
        start == kind.push(' '),
        !kind.contains(' '),
        !field.contains(' '),
    ensures
        split_on(start + field, ' ') == seq![kind, field],
{
    lemma_split_field(kind, ' ', field);
    lemma_split_last(field, ' ');
    assert(seq![kind] + seq![field] =~= seq![kind, field]);
}

/// A number's own digits are a field that is read as that number.
proof fn lemma_count(n: usize)
    ensures
        !decimal(n as nat).contains(' '),
        count_in(decimal(n as nat)) == n,
{
    let digits = decimal(n as nat);
    lemma_decimal(n as nat);
    decimal_reads_back(n);
    trimmed_is_trimmed(digits);
    assert(is_digit(digits[0]));
    assert(is_digit(digits.last()));
    assert forall|i: int| 0 <= i < digits.len() implies digits[i] != ' ' by {
        assert(is_digit(digits[i]));
    }
}

/// The kinds of message are told apart and have no spaces.
proof fn lemma_kinds()
    ensures
        "OK"@ == seq!['O', 'K'],
        "WRONG"@ == seq!['W', 'R', 'O', 'N', 'G'],
        "IAMALIVE"@ == seq!['I', 'A', 'M', 'A', 'L', 'I', 'V', 'E'],
        "BUFFER"@ == seq!['B', 'U', 'F', 'F', 'E', 'R'],
        "BUFFER "@ == "BUFFER"@.push(' '),
        "SN"@ == seq!['S', 'N'],
        "SN "@ == "SN"@.push(' '),
        "BITRATE"@ == seq!['B', 'I', 'T', 'R', 'A', 'T', 'E'],
        "BITRATE "@ == "BITRATE"@.push(' '),
        "PTT"@ == seq!['P', 'T', 'T'],
        "PTT "@ == "PTT"@.push(' '),
        "CONNECTED"@ == seq!['C', 'O', 'N', 'N', 'E', 'C', 'T', 'E', 'D'],
        "CONNECTED "@ == "CONNECTED"@.push(' '),
        "DISCONNECTED"@ == seq!['D', 'I', 'S', 'C', 'O', 'N', 'N', 'E', 'C', 'T', 'E', 'D'],
        " "@ == seq![' '],
        "OK"@.len() == 2 && "OK"@[0] == 'O',
        "WRONG"@.len() == 5,
        "IAMALIVE"@.len() == 8,
        "BUFFER"@.len() == 6,
        "SN"@.len() == 2 && "SN"@[0] == 'S',
        "BITRATE"@.len() == 7,
        "PTT"@.len() == 3,
        "CONNECTED"@.len() == 9,
        "DISCONNECTED"@.len() == 12,
{
    reveal_strlit("OK");
    reveal_strlit("WRONG");
    reveal_strlit("IAMALIVE");
    reveal_strlit("BUFFER");
    reveal_strlit("BUFFER ");
    reveal_strlit("SN");
    reveal_strlit("SN ");
    reveal_strlit("BITRATE");
    reveal_strlit("BITRATE ");
    reveal_strlit("PTT");
    reveal_strlit("PTT ");
    reveal_strlit("CONNECTED");
    reveal_strlit("CONNECTED ");
    reveal_strlit("DISCONNECTED");
    reveal_strlit(" ");
}

/// What a message holds is what its view says, field for field.
pub proof fn messages_are_viewed_so(
    n: usize,
    on: bool,
    text: String,
    connection: OpenConnection,
)
    ensures
        Message::Accepted@ is Accepted,
        Message::Rejected@ is Rejected,
        Message::KeepAlive@ is KeepAlive,
        Message::Buffer(n)@ == MessageView::Buffer(n),
        Message::Snr(text)@ == MessageView::Snr(text@),
        Message::Bitrate(text, n)@ == MessageView::Bitrate(text@, n),
        Message::Ptt(on)@ == MessageView::Ptt(on),
        Message::UnknownPtt(text)@ == MessageView::UnknownPtt(text@),
        Message::Connected(connection, text)@ == MessageView::Connected(connection@, text@),
        Message::UnknownBandwidth(text)@ == MessageView::UnknownBandwidth(text@),
        Message::Disconnected@ is Disconnected,
        Message::Incomplete@ is Incomplete,
        Message::Unknown(text)@ == MessageView::Unknown(text@),
        connection@.source_call == connection.source_call@,
        connection@.destination_call == connection.destination_call@,
        connection@.bandwidth == connection.bandwidth,
{
}

/// The first field of a text tells its kind, and what follows the first space are its other fields.
proof fn lemma_first_field(kind: Seq<char>, more: Seq<char>)
    requires
        !kind.contains(' '),
    ensures
        split_on(kind + " "@ + more, ' ') == seq![kind] + split_on(more, ' '),
        split_on(more, ' ').len() > 0,
        split_on(kind, ' ') == seq![kind],
{
    reveal_strlit(" ");
    assert(kind + " "@ + more =~= kind.push(' ') + more);
    lemma_split_field(kind, ' ', more);
    lemma_split_last(kind, ' ');
    split_joins_back(more, ' ');
}

/// A report of the transmit buffer gives the number in its second field, without the white space
/// around it, and zero if that is no number. What follows the field changes nothing.
pub proof fn any_buffer_report_is_read(field: Seq<char>, more: Seq<char>)
    requires
        !field.contains(' '),
    ensures
        ({
            let n = match number(trimmed(field)) {
                Some(n) => n,
                None => 0,
            };
            &&& meaning("BUFFER "@ + field) == MessageView::Buffer(n)
            &&& meaning("BUFFER "@ + field + " "@ + more) == MessageView::Buffer(n)
        }),
{
    lemma_kinds();
    lemma_first_field(field, more);
    lemma_first_field("BUFFER"@, field);
    lemma_first_field("BUFFER"@, field + " "@ + more);
    assert("BUFFER "@ + field =~= "BUFFER"@ + " "@ + field);
    assert("BUFFER "@ + field + " "@ + more =~= "BUFFER"@ + " "@ + (field + " "@ + more));
}

/// A number of bytes is read from a report of the transmit buffer, whatever follows it.
pub proof fn buffer_report_with_more_is_read(n: usize, more: Seq<char>)
    ensures
        meaning("BUFFER "@ + decimal(n as nat) + " "@ + more) == MessageView::Buffer(n),
{
    lemma_count(n);
    any_buffer_report_is_read(decimal(n as nat), more);
}

/// A report of the SNR gives the text of its second field, without the white space around it. What
/// follows the field changes nothing.
pub proof fn any_snr_report_is_read(field: Seq<char>, more: Seq<char>)
    requires
        !field.contains(' '),
    ensures
        meaning("SN "@ + field) == MessageView::Snr(trimmed(field)),
        meaning("SN "@ + field + " "@ + more) == MessageView::Snr(trimmed(field)),
{
    lemma_kinds();
    lemma_first_field(field, more);
    lemma_first_field("SN"@, field);
    lemma_first_field("SN"@, field + " "@ + more);
    assert("SN "@ + field =~= "SN"@ + " "@ + field);
    assert("SN "@ + field + " "@ + more =~= "SN"@ + " "@ + (field + " "@ + more));
}

/// A report of the bitrate gives its second field as it is, and the number in its third field,
/// without the white space around it, and zero if that is no number. What follows these fields
/// changes nothing.
pub proof fn any_bitrate_report_is_read(level: Seq<char>, field: Seq<char>, more: Seq<char>)
    requires
        !level.contains(' '),
        !field.contains(' '),
    ensures
        ({
            let bps = match number(trimmed(field)) {
                Some(n) => n,
                None => 0,
            };
            let text = "BITRATE "@ + level + " "@ + field;
            &&& meaning(text) == MessageView::Bitrate(level, bps)
            &&& meaning(text + " "@ + more) == MessageView::Bitrate(level, bps)
        }),
{
    let text = "BITRATE "@ + level + " "@ + field;
    lemma_kinds();
    lemma_first_field(field, more);
    lemma_first_field(level, field);
    lemma_first_field(level, field + " "@ + more);
    lemma_first_field("BITRATE"@, level + " "@ + field);
    lemma_first_field("BITRATE"@, level + " "@ + (field + " "@ + more));
    assert(text =~= "BITRATE"@ + " "@ + (level + " "@ + field));
    assert(text + " "@ + more =~= "BITRATE"@ + " "@ + (level + " "@ + (field + " "@ + more)));
}

/// A mode without spaces and a throughput are read from a report of the bitrate, whatever follows
/// them, such as a unit.
pub proof fn bitrate_report_with_more_is_read(level: Seq<char>, bps: usize, more: Seq<char>)
    requires
        !level.contains(' '),
    ensures
        meaning("BITRATE "@ + level + " "@ + decimal(bps as nat) + " "@ + more)
            == MessageView::Bitrate(level, bps),
{
    lemma_count(bps);
    any_bitrate_report_is_read(level, decimal(bps as nat), more);
}

/// A report of PTT is on for `ON`, off for `OFF`, and unknown for any other second field. What
/// follows the field changes nothing.
pub proof fn any_ptt_report_is_read(field: Seq<char>, more: Seq<char>)
    requires
        !field.contains(' '),
    ensures
        ({
            let ptt = if field == "ON"@ {
                MessageView::Ptt(true)
            } else if field == "OFF"@ {
                MessageView::Ptt(false)
            } else {
                MessageView::UnknownPtt(field)
            };
            &&& meaning("PTT "@ + field) == ptt
            &&& meaning("PTT "@ + field + " "@ + more) == ptt
        }),
{
    lemma_kinds();
    lemma_first_field(field, more);
    lemma_first_field("PTT"@, field);
    lemma_first_field("PTT"@, field + " "@ + more);
    assert("PTT "@ + field =~= "PTT"@ + " "@ + field);
    assert("PTT "@ + field + " "@ + more =~= "PTT"@ + " "@ + (field + " "@ + more));
}

/// A report of a connection gives the station that called, the station that was called and the
/// bandwidth, in this order, if the bandwidth is known, and else the bandwidth that is not known.
/// What follows these fields changes nothing.
pub proof fn any_connected_report_is_read(
    source: Seq<char>,
    destination: Seq<char>,
    width: Seq<char>,
    more: Seq<char>,
)
    requires
        !source.contains(' '),
        !destination.contains(' '),
        !width.contains(' '),
    ensures
        ({
            let text = "CONNECTED "@ + source + " "@ + destination + " "@ + width;
            let known = |bandwidth: Bandwidth|
                MessageView::Connected(
                    ConnectionView {
                        source_call: source,
                        destination_call: destination,
                        bandwidth,
                    },
                    width,
                );
            let said = if width == "BW500"@ || width == "500"@ {
                known(Bandwidth::BW500)
            } else if width == "BW2300"@ || width == "2300"@ {
                known(Bandwidth::BW2300)
            } else if width == "BW2750"@ || width == "2750"@ {
                known(Bandwidth::BW2750)
            } else {
                MessageView::UnknownBandwidth(width)
            };
            &&& meaning(text) == said
            &&& meaning(text + " "@ + more) == said
        }),
{
    let text = "CONNECTED "@ + source + " "@ + destination + " "@ + width;
    lemma_kinds();
    lemma_bandwidth_texts();
    only_names_and_widths_are_read(width);
    lemma_first_field(width, more);
    lemma_first_field(destination, width);
    lemma_first_field(destination, width + " "@ + more);
    lemma_first_field(source, destination + " "@ + width);
    lemma_first_field(source, destination + " "@ + (width + " "@ + more));
    lemma_first_field("CONNECTED"@, source + " "@ + (destination + " "@ + width));
    lemma_first_field("CONNECTED"@, source + " "@ + (destination + " "@ + (width + " "@ + more)));
    assert(text =~= "CONNECTED"@ + " "@ + (source + " "@ + (destination + " "@ + width)));
    assert(text + " "@ + more =~= "CONNECTED"@ + " "@ + (source + " "@ + (destination + " "@ + (
    width + " "@ + more))));
}

/// The messages without fields are what they are whatever follows them.
pub proof fn plain_reports_with_more_are_read(more: Seq<char>)
    ensures
        meaning("OK"@ + " "@ + more) == MessageView::Accepted,
        meaning("WRONG"@ + " "@ + more) == MessageView::Rejected,
        meaning("IAMALIVE"@ + " "@ + more) == MessageView::KeepAlive,
        meaning("DISCONNECTED"@ + " "@ + more) == MessageView::Disconnected,
{
    lemma_kinds();
    lemma_first_field("OK"@, more);
    lemma_first_field("WRONG"@, more);
    lemma_first_field("IAMALIVE"@, more);
    lemma_first_field("DISCONNECTED"@, more);
}

/// A known message that lacks a field is incomplete, whatever the fields are that it has.
pub proof fn reports_that_lack_a_field_are_incomplete(a: Seq<char>, b: Seq<char>)
    requires
        !a.contains(' '),
        !b.contains(' '),
    ensures
        meaning("BUFFER"@) == MessageView::Incomplete,
        meaning("SN"@) == MessageView::Incomplete,
        meaning("PTT"@) == MessageView::Incomplete,
        meaning("BITRATE"@) == MessageView::Incomplete,
        meaning("BITRATE "@ + a) == MessageView::Incomplete,
        meaning("CONNECTED"@) == MessageView::Incomplete,
        meaning("CONNECTED "@ + a) == MessageView::Incomplete,
        meaning("CONNECTED "@ + a + " "@ + b) == MessageView::Incomplete,
{
    lemma_kinds();
    lemma_first_field("BUFFER"@, a);
    lemma_first_field("SN"@, a);
    lemma_first_field("PTT"@, a);
    lemma_first_field(b, a);
    lemma_first_field(a, b);
    lemma_first_field("BITRATE"@, a);
    lemma_first_field("CONNECTED"@, a);
    lemma_first_field("CONNECTED"@, a + " "@ + b);
    assert("BITRATE "@ + a =~= "BITRATE"@ + " "@ + a);
    assert("CONNECTED "@ + a =~= "CONNECTED"@ + " "@ + a);
    assert("CONNECTED "@ + a + " "@ + b =~= "CONNECTED"@ + " "@ + (a + " "@ + b));
}

/// A message of any other kind is unknown, and kept as it came.
pub proof fn other_messages_are_unknown(kind: Seq<char>, more: Seq<char>)
    requires
        !kind.contains(' '),
        kind != "OK"@,
        kind != "WRONG"@,
        kind != "IAMALIVE"@,
        kind != "BUFFER"@,
        kind != "SN"@,
        kind != "BITRATE"@,
        kind != "PTT"@,
        kind != "CONNECTED"@,
        kind != "DISCONNECTED"@,
    ensures
        meaning(kind) == MessageView::Unknown(kind),
        meaning(kind + " "@ + more) == MessageView::Unknown(kind + " "@ + more),
{
    lemma_first_field(kind, more);
}

} // verus!
