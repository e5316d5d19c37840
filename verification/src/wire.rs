//! How the control port is written to and read: one message after the other, each ended by a
//! delimiter.

use vstd::prelude::*;
use vstd::utf8::{
    decode_utf8, encode_scalar, encode_utf8, last_continuation_byte, leading_byte_width_2,
    leading_byte_width_3, leading_byte_width_4, second_last_continuation_byte,
    third_last_continuation_byte, valid_utf8,
};
use crate::text::{
    first_index, lemma_first_index, lemma_split_field, lemma_split_last, split_joins_back, split_on,
};

verus! {

/// The byte that ends every message on mercury's control port, in both directions.
pub const DELIMITER: u8 = 13;

/// `command` as it goes out on the control port: mercury denotes the end of a command with `\r`.
pub open spec fn framed(command: Seq<char>) -> Seq<char> {
    command.push('\r')
}

/// How mercury writes a switch.
pub open spec fn on_off(on: bool) -> Seq<char> {
    if on {
        "ON"@
    } else {
        "OFF"@
    }
}

/// Ends `command` with the delimiter.
pub fn frame(command: String) -> (r: String)
    ensures
        r@ == framed(command@),
{
    proof {
        reveal_strlit("\r");
    }
    let r = command.concat("\r");
    assert(r@ =~= framed(command@));
    r
}

/// How mercury writes a switch.
pub fn switch(on: bool) -> (r: &'static str)
    ensures
        r@ == on_off(on),
{
    match on {
        true => "ON",
        false => "OFF",
    }
}

/// The text that `String::from_utf8_lossy` makes of `bytes`.
pub uninterp spec fn lossy_text(bytes: Seq<u8>) -> Seq<char>;

/// Calls `String::from_utf8_lossy`. Its result depends on the bytes alone. Bytes that are valid
/// UTF-8 give the text that they encode. Of other bytes no more is said: which of them make way
/// for a replacement character is left to `std`.
#[verifier::external_body]
pub(crate) fn decode_lossy(bytes: &[u8]) -> (r: String)
    ensures
        r@ == lossy_text(bytes@),
        valid_utf8(bytes@) ==> r@ == decode_utf8(bytes@),
{
    String::from_utf8_lossy(bytes).into_owned()
}

/// What goes out for `commands`, one after the other.
pub open spec fn stream(commands: Seq<Seq<char>>) -> Seq<char>
    decreases commands.len(),
{
    if commands.len() == 0 {
        Seq::empty()
    } else {
        framed(commands[0]) + stream(commands.skip(1))
    }
}

/// The bytes of each of `commands`.
pub open spec fn encoded(commands: Seq<Seq<char>>) -> Seq<Seq<u8>> {
    commands.map_values(|command: Seq<char>| encode_utf8(command))
}

/// Whoever splits the bytes that go out at the delimiter gets the commands, one by one and in
/// order, and nothing behind the last delimiter. This takes that no command holds a `\r` of its
/// own.
pub proof fn commands_arrive_one_by_one(commands: Seq<Seq<char>>)
    requires
        forall|i: int| 0 <= i < commands.len() ==> !(#[trigger] commands[i]).contains('\r'),
    ensures
        split_on(encode_utf8(stream(commands)), DELIMITER) == encoded(commands).push(Seq::empty()),
    decreases commands.len(),
{
    let bytes = encode_utf8(stream(commands));
    if commands.len() == 0 {
        lemma_split_last(Seq::<u8>::empty(), DELIMITER);
        assert(bytes =~= Seq::<u8>::empty());
        assert(split_on(bytes, DELIMITER) =~= encoded(commands).push(Seq::empty()));
    } else {
        let first = commands[0];
        let rest = commands.skip(1);
        commands_arrive_one_by_one(rest);
        lemma_encode_concat(framed(first), stream(rest));
        lemma_framed_bytes(first);
        lemma_split_field(encode_utf8(first), DELIMITER, encode_utf8(stream(rest)));
        assert(encoded(commands) =~= seq![encode_utf8(first)] + encoded(rest));
        assert(split_on(bytes, DELIMITER) =~= encoded(commands).push(Seq::empty()));
    }
}

/// The messages in the bytes that come in, up to where they end. Each ends at a delimiter, but for
/// the last one, which may lack it.
pub open spec fn segments(bytes: Seq<u8>) -> Seq<Seq<u8>> {
    let parts = split_on(bytes, DELIMITER);
    if parts.last().len() == 0 {
        parts.drop_last()
    } else {
        parts
    }
}

/// The bytes that come in can be cut behind any delimiter: the messages in the two parts are those
/// in the whole.
pub proof fn segments_of_parts(a: Seq<u8>, b: Seq<u8>)
    requires
        a.len() == 0 || a.last() == DELIMITER,
    ensures
        segments(a + b) == segments(a) + segments(b),
    decreases a.len(),
{
    if a.len() == 0 {
        lemma_split_last(a, DELIMITER);
        assert(a + b =~= b);
        assert(segments(a) =~= Seq::<Seq<u8>>::empty());
        assert(segments(a) + segments(b) =~= segments(b));
    } else {
        lemma_first_index(a, DELIMITER);
        let i = first_index(a, DELIMITER);
        let field = a.take(i);
        let rest = a.skip(i + 1);
        assert(a =~= field.push(DELIMITER) + rest);
        assert(a + b =~= field.push(DELIMITER) + (rest + b));
        lemma_split_field(field, DELIMITER, rest);
        lemma_split_field(field, DELIMITER, rest + b);
        split_joins_back(rest, DELIMITER);
        split_joins_back(rest + b, DELIMITER);
        segments_of_parts(rest, b);
        assert(segments(a) =~= seq![field] + segments(rest));
        assert(segments(a + b) =~= seq![field] + segments(rest + b));
        assert(segments(a + b) =~= segments(a) + segments(b));
    }
}

/// A command that goes out is its own bytes and the delimiter, which is in them only if the
/// command holds a `\r`.
pub proof fn lemma_framed_bytes(command: Seq<char>)
    ensures
        encode_utf8(framed(command)) == encode_utf8(command).push(DELIMITER),
        encode_utf8(command).contains(DELIMITER) ==> command.contains('\r'),
{
    let end = seq!['\r'];
    assert(framed(command) =~= command + end);
    lemma_encode_concat(command, end);
    lemma_scalar_delimiter('\r');
    assert(end.drop_first() =~= Seq::<char>::empty());
    assert(encode_utf8(end.drop_first()) =~= Seq::<u8>::empty());
    assert(encode_utf8(end) =~= seq![DELIMITER]);
    if encode_utf8(command).contains(DELIMITER) {
        lemma_encoded_delimiter(command);
    }
}

/// The bytes of two texts, one after the other, are those of the texts joined.
proof fn lemma_encode_concat(a: Seq<char>, b: Seq<char>)
    ensures
        encode_utf8(a + b) == encode_utf8(a) + encode_utf8(b),
    decreases a.len(),
{
    if a.len() == 0 {
        assert(a + b =~= b);
        assert(encode_utf8(a) + encode_utf8(b) =~= encode_utf8(b));
    } else {
        lemma_encode_concat(a.drop_first(), b);
        assert((a + b).drop_first() =~= a.drop_first() + b);
        assert(encode_scalar(a[0] as u32) + (encode_utf8(a.drop_first()) + encode_utf8(b))
            =~= encode_utf8(a) + encode_utf8(b));
    }
}

/// Only `\r` has the delimiter among its bytes.
proof fn lemma_encoded_delimiter(s: Seq<char>)
    requires
        encode_utf8(s).contains(DELIMITER),
    ensures
        s.contains('\r'),
    decreases s.len(),
{
    let head = encode_scalar(s[0] as u32);
    let tail = encode_utf8(s.drop_first());
    let i = choose|i: int| 0 <= i < encode_utf8(s).len() && encode_utf8(s)[i] == DELIMITER;
    if i < head.len() {
        assert(head[i] == DELIMITER);
        lemma_scalar_delimiter(s[0]);
        assert(s[0] == '\r');
    } else {
        assert(tail[i - head.len()] == DELIMITER);
        lemma_encoded_delimiter(s.drop_first());
        let k = choose|k: int| 0 <= k < s.drop_first().len() && s.drop_first()[k] == '\r';
        assert(s[k + 1] == '\r');
    }
}

/// The bytes of one character hold the delimiter only if it is `\r`, whose only byte that is.
proof fn lemma_scalar_delimiter(c: char)
    ensures
        encode_scalar(c as u32).contains(DELIMITER) ==> c == '\r',
        c == '\r' ==> encode_scalar(c as u32) == seq![DELIMITER],
{
    let u = c as u32;
    assert(u <= 0x7f ==> (u & 0x7f) as u8 == u) by (bit_vector);
    assert(leading_byte_width_2(u) >= 0x80 && leading_byte_width_3(u) >= 0x80
        && leading_byte_width_4(u) >= 0x80 && last_continuation_byte(u) >= 0x80
        && second_last_continuation_byte(u) >= 0x80 && third_last_continuation_byte(u) >= 0x80)
        by (bit_vector);
    if u == 13 {
        assert(encode_scalar(u) =~= seq![DELIMITER]);
    }
}

/// A command goes out as it is, with a carriage return behind it and nothing else, as text and as
/// bytes.
pub proof fn commands_are_framed_so(command: Seq<char>)
    ensures
        framed(command).len() == command.len() + 1,
        framed(command).drop_last() == command,
        framed(command).last() as int == 13,
        encode_utf8(framed(command)).drop_last() == encode_utf8(command),
        encode_utf8(framed(command)).last() == 13,
{
    lemma_framed_bytes(command);
    assert(framed(command).drop_last() =~= command);
    assert(encode_utf8(framed(command)).drop_last() =~= encode_utf8(command));
}

/// A switch that is on is written `ON`, and one that is off `OFF`.
pub proof fn switches_are_written_so(on: bool)
    ensures
        on ==> on_off(on) == seq!['O', 'N'],
        !on ==> on_off(on) == seq!['O', 'F', 'F'],
{
    reveal_strlit("ON");
    reveal_strlit("OFF");
}

/// What stands before a delimiter is one message, even if it is empty, and so is what stands behind
/// the last one, unless that is empty.
pub proof fn messages_end_at_delimiters(message: Seq<u8>, rest: Seq<u8>)
    requires
        forall|i: int| 0 <= i < message.len() ==> #[trigger] message[i] != 13,
    ensures
        segments(message + seq![13u8] + rest) == seq![message] + segments(rest),
        message.len() > 0 ==> segments(message) == seq![message],
        segments(Seq::<u8>::empty()).len() == 0,
{
    let a = message + seq![13u8];
    assert(!message.contains(DELIMITER));
    lemma_split_last(message, DELIMITER);
    lemma_split_last(Seq::<u8>::empty(), DELIMITER);
    lemma_split_field(message, DELIMITER, Seq::<u8>::empty());
    assert(a =~= message.push(DELIMITER) + Seq::<u8>::empty());
    segments_of_parts(a, rest);
    assert(segments(a) =~= seq![message]);
    assert(message + seq![13u8] + rest =~= a + rest);
}

/// The bytes that go out for commands are those of each with its delimiter, one after the other.
pub proof fn streams_are_made_command_by_command(command: Seq<char>, rest: Seq<Seq<char>>)
    ensures
        stream(Seq::<Seq<char>>::empty()).len() == 0,
        stream(seq![command] + rest) == command.push('\r') + stream(rest),
        encoded(seq![command] + rest) == seq![encode_utf8(command)] + encoded(rest),
{
    assert((seq![command] + rest).skip(1) =~= rest);
    assert(encoded(seq![command] + rest) =~= seq![encode_utf8(command)] + encoded(rest));
}

} // verus!
