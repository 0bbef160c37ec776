//! Messages of a VNC client, and the input that they carry.

use vstd::prelude::*;

use crate::bytes::{be_u16, be_u32};

verus! {

/// Input that a client sent.
#[derive(Debug, Clone, Copy, PartialEq, Eq, Structural)]
pub enum VncInputEvent {
    /// A key, by its keysym, went down or up.
    Keyboard { key: u32, down: bool },
    /// A mouse button (0 left, 1 middle, 2 right) is down or up.
    MouseButton { button: u8, down: bool },
    /// The pointer moved by a distance.
    PointerMove { dx: i16, dy: i16 },
    /// The pointer is at a place.
    PointerPosition { x: u32, y: u32 },
}

pub const SET_PIXEL_FORMAT: u8 = 0;

pub const SET_COLOR_MAP_ENTRIES: u8 = 1;

pub const SET_ENCODINGS: u8 = 2;

pub const UPDATE_REQUEST: u8 = 3;

pub const KEY_EVENT: u8 = 4;

pub const POINTER_EVENT: u8 = 5;

pub const CUT_TEXT: u8 = 6;

pub const SET_COLOUR_VALUES: u8 = 9;

/// Message of the QEMU extension; its first byte after the type is a sub-type.
pub const QEMU_MESSAGE: u8 = 0xFF;

/// Sub-type of a QEMU message that carries a key event.
pub const QEMU_KEY_EVENT: u8 = 0;

/// Bytes of the fixed part of a message that follow its type. A type that is not
/// known has none.
pub open spec fn header_length(kind: u8) -> nat {
    if kind == SET_PIXEL_FORMAT {
        23
    } else if kind == SET_COLOR_MAP_ENTRIES {
        6
    } else if kind == SET_ENCODINGS || kind == UPDATE_REQUEST || kind == CUT_TEXT || kind
        == SET_COLOUR_VALUES {
        4
    } else if kind == KEY_EVENT {
        7
    } else if kind == POINTER_EVENT {
        8
    } else if kind == QEMU_MESSAGE {
        12
    } else {
        0
    }
}

/// Bytes of the variable part of a message, which follows its fixed part: six for
/// each colour, four for each encoding, twelve for each rectangle, and the text.
pub open spec fn body_length(kind: u8, header: Seq<u8>) -> nat {
    if kind == SET_COLOR_MAP_ENTRIES {
        6 * crate::bytes::be_value(header.subrange(4, 6))
    } else if kind == SET_ENCODINGS {
        4 * crate::bytes::be_value(header.subrange(2, 4))
    } else if kind == UPDATE_REQUEST {
        12 * crate::bytes::be_value(header.subrange(2, 4))
    } else if kind == CUT_TEXT {
        crate::bytes::be_value(header)
    } else if kind == SET_COLOUR_VALUES {
        6 * crate::bytes::be_value(header.subrange(2, 4))
    } else {
        0
    }
}

/// The input that a message carries. A pointer message tells the state of all three
/// buttons, and then the place of the pointer.
pub open spec fn message_events(kind: u8, header: Seq<u8>) -> Seq<VncInputEvent> {
    if kind == KEY_EVENT {
        seq![
            VncInputEvent::Keyboard {
                key: crate::bytes::be_value(header.subrange(3, 7)) as u32,
                down: header[0] != 0,
            },
        ]
    } else if kind == POINTER_EVENT {
        seq![
            VncInputEvent::MouseButton { button: 0, down: header[0] & 1 != 0 },
            VncInputEvent::MouseButton { button: 1, down: header[0] & 2 != 0 },
            VncInputEvent::MouseButton { button: 2, down: header[0] & 4 != 0 },
            VncInputEvent::PointerPosition {
                x: crate::bytes::be_value(header.subrange(4, 6)) as u32,
                y: crate::bytes::be_value(header.subrange(6, 8)) as u32,
            },
        ]
    } else if kind == QEMU_MESSAGE && header[0] == QEMU_KEY_EVENT {
        seq![
            VncInputEvent::Keyboard {
                key: crate::bytes::be_value(header.subrange(3, 7)) as u32,
                down: crate::bytes::be_value(header.subrange(1, 3)) != 0,
            },
        ]
    } else {
        Seq::empty()
    }
}

/// The fixed part of the message that `input` starts with.
pub open spec fn first_header(input: Seq<u8>) -> Seq<u8> {
    input.subrange(1, 1 + header_length(input[0]) as int)
}

/// Length of the message that `input` starts with; `None` while the message is not
/// there in full.
pub open spec fn first_message(input: Seq<u8>) -> Option<nat> {
    if input.len() == 0 || input.len() < 1 + header_length(input[0]) {
        None
    } else {
        let total = 1 + header_length(input[0]) + body_length(input[0], first_header(input));
        if input.len() < total {
            None
        } else {
            Some(total)
        }
    }
}

/// The input in a string of messages, in order. A message that is not there in full
/// ends the string and carries nothing.
pub open spec fn input_events(input: Seq<u8>) -> Seq<VncInputEvent>
    decreases input.len(),
{
    match first_message(input) {
        Some(total) => message_events(input[0], first_header(input)) + input_events(
            input.skip(total as int),
        ),
        None => Seq::empty(),
    }
}

/// Where the reader of client messages stands.
#[derive(Debug, Clone, Copy, PartialEq, Eq, Structural)]
pub enum InputReader {
    /// Before the type of a message.
    Kind,
    /// After the type, before the fixed part.
    Header { kind: u8 },
    /// After the fixed part, before the variable part.
    Body { kind: u8, length: usize },
    /// At the end of what the client sent.
    Finished,
}

impl InputReader {
    /// Where the reader stands after it read what it wanted.
    pub open spec fn spec_next(self, bytes: Seq<u8>) -> InputReader {
        match self {
            InputReader::Kind => if header_length(bytes[0]) == 0 {
                InputReader::Kind
            } else {
                InputReader::Header { kind: bytes[0] }
            },
            InputReader::Header { kind } => if body_length(kind, bytes) == 0 {
                InputReader::Kind
            } else {
                InputReader::Body { kind, length: body_length(kind, bytes) as usize }
            },
            InputReader::Body { .. } => InputReader::Kind,
            InputReader::Finished => InputReader::Finished,
        }
    }

    /// Where the reader stands after a read that failed. The rectangles of an update
    /// request are not waited for: the reader goes on as if they had come.
    pub open spec fn spec_failed(self) -> InputReader {
        match self {
            InputReader::Body { kind, .. } => if kind == UPDATE_REQUEST {
                InputReader::Kind
            } else {
                InputReader::Finished
            },
            _ => InputReader::Finished,
        }
    }

    /// Number of bytes that the reader wants next; 0 at the end.
    pub open spec fn spec_wanted(self) -> nat {
        match self {
            InputReader::Kind => 1,
            InputReader::Header { kind } => header_length(kind),
            InputReader::Body { length, .. } => length as nat,
            InputReader::Finished => 0,
        }
    }

    /// The input that came with what the reader read.
    pub open spec fn spec_events(self, bytes: Seq<u8>) -> Seq<VncInputEvent> {
        match self {
            InputReader::Header { kind } => message_events(kind, bytes),
            _ => Seq::empty(),
        }
    }

    /// Number of bytes to read next, all of them or none; 0 at the end.
    pub fn wanted(&self) -> (count: usize)
        ensures
            count == self.spec_wanted(),
            self is Kind ==> count == 1,
            self is Finished ==> count == 0,
    {
        match self {
            InputReader::Kind => 1,
            InputReader::Header { kind } => header_size(*kind),
            InputReader::Body { length, .. } => *length,
            InputReader::Finished => 0,
        }
    }

    /// Takes the bytes that the reader wanted, and tells the input that they carry.
    pub fn advance(self, bytes: &[u8]) -> (step: (InputReader, Vec<VncInputEvent>))
        requires
            bytes@.len() == self.spec_wanted(),
        ensures
            step.0 == self.spec_next(bytes@),
            step.1@ == self.spec_events(bytes@),
    {
        match self {
            InputReader::Kind => {
                let kind: u8 = bytes[0];
                if header_size(kind) == 0 {
                    (InputReader::Kind, Vec::new())
                } else {
                    (InputReader::Header { kind }, Vec::new())
                }
            },
            InputReader::Header { kind } => {
                let length: usize = body_size(kind, bytes);
                let events: Vec<VncInputEvent> = decode_message(kind, bytes);
                if length == 0 {
                    (InputReader::Kind, events)
                } else {
                    (InputReader::Body { kind, length }, events)
                }
            },
            InputReader::Body { .. } => (InputReader::Kind, Vec::new()),
            InputReader::Finished => (InputReader::Finished, Vec::new()),
        }
    }

    /// Takes note that the bytes which the reader wanted could not be read.
    pub fn fail(self) -> (next: InputReader)
        ensures
            next == self.spec_failed(),
            next == (if self is Body && self->Body_kind == 3 {
                InputReader::Kind
            } else {
                InputReader::Finished
            }),
    {
        match self {
            InputReader::Body { kind, .. } => if kind == UPDATE_REQUEST {
                InputReader::Kind
            } else {
                InputReader::Finished
            },
            _ => InputReader::Finished,
        }
    }
}

/// Bytes of the fixed part of a message.
fn header_size(kind: u8) -> (count: usize)
    ensures
        count == header_length(kind),
{
    match kind {
        SET_PIXEL_FORMAT => 23,
        SET_COLOR_MAP_ENTRIES => 6,
        SET_ENCODINGS => 4,
        UPDATE_REQUEST => 4,
        KEY_EVENT => 7,
        POINTER_EVENT => 8,
        CUT_TEXT => 4,
        SET_COLOUR_VALUES => 4,
        QEMU_MESSAGE => 12,
        _ => 0,
    }
}

/// Bytes of the variable part of a message.
fn body_size(kind: u8, header: &[u8]) -> (count: usize)
    requires
        header@.len() == header_length(kind),
    ensures
        count == body_length(kind, header@),
{
    match kind {
        SET_COLOR_MAP_ENTRIES => {
            assert(seq![header@[4], header@[5]] =~= header@.subrange(4, 6));
            6 * be_u16(header[4], header[5]) as usize
        },
        SET_ENCODINGS => {
            assert(seq![header@[2], header@[3]] =~= header@.subrange(2, 4));
            4 * be_u16(header[2], header[3]) as usize
        },
        UPDATE_REQUEST => {
            assert(seq![header@[2], header@[3]] =~= header@.subrange(2, 4));
            12 * be_u16(header[2], header[3]) as usize
        },
        CUT_TEXT => {
            assert(seq![header@[0], header@[1], header@[2], header@[3]] =~= header@);
            be_u32(header[0], header[1], header[2], header[3]) as usize
        },
        SET_COLOUR_VALUES => {
            assert(seq![header@[2], header@[3]] =~= header@.subrange(2, 4));
            6 * be_u16(header[2], header[3]) as usize
        },
        _ => 0,
    }
}

/// The input that a message carries.
fn decode_message(kind: u8, header: &[u8]) -> (events: Vec<VncInputEvent>)
    requires
        header@.len() == header_length(kind),
    ensures
        events@ == message_events(kind, header@),
{
    match kind {
        KEY_EVENT => {
            let key: u32 = be_u32(header[3], header[4], header[5], header[6]);
            assert(seq![header@[3], header@[4], header@[5], header@[6]] =~= header@.subrange(3, 7));
            vec![VncInputEvent::Keyboard { key, down: header[0] != 0 }]
        },
        POINTER_EVENT => {
            let mask: u8 = header[0];
            let x: u32 = be_u16(header[4], header[5]) as u32;
            let y: u32 = be_u16(header[6], header[7]) as u32;
            assert(seq![header@[4], header@[5]] =~= header@.subrange(4, 6));
            assert(seq![header@[6], header@[7]] =~= header@.subrange(6, 8));
            vec![
                VncInputEvent::MouseButton { button: 0, down: mask & 1 != 0 },
                VncInputEvent::MouseButton { button: 1, down: mask & 2 != 0 },
                VncInputEvent::MouseButton { button: 2, down: mask & 4 != 0 },
                VncInputEvent::PointerPosition { x, y },
            ]
        },
        QEMU_MESSAGE => {
            if header[0] == QEMU_KEY_EVENT {
                let down: bool = be_u16(header[1], header[2]) != 0;
                let key: u32 = be_u32(header[3], header[4], header[5], header[6]);
                assert(seq![header@[1], header@[2]] =~= header@.subrange(1, 3));
                assert(seq![header@[3], header@[4], header@[5], header@[6]] =~= header@.subrange(
                    3,
                    7,
                ));
                vec![VncInputEvent::Keyboard { key, down }]
            } else {
                Vec::new()
            }
        },
        _ => Vec::new(),
    }
}

/// What is still to come when the reader stands at `reader` and `rest` is what the
/// client sent beyond that place.
spec fn events_to_come(reader: InputReader, rest: Seq<u8>) -> Seq<VncInputEvent> {
    match reader {
        InputReader::Kind => input_events(rest),
        InputReader::Header { kind } => input_events(seq![kind] + rest),
        InputReader::Body { length, .. } => if rest.len() < length {
            Seq::empty()
        } else {
            input_events(rest.skip(length as int))
        },
        InputReader::Finished => Seq::empty(),
    }
}

/// The reader never wants nothing before the end.
spec fn reader_wf(reader: InputReader) -> bool {
    match reader {
        InputReader::Header { kind } => header_length(kind) > 0,
        InputReader::Body { kind, length } => length > 0,
        _ => true,
    }
}

/// How many failed reads the reader is away from its end, at most.
spec fn reader_rank(reader: InputReader) -> int {
    match reader {
        InputReader::Kind => 1,
        InputReader::Header { .. } => 1,
        InputReader::Body { .. } => 2,
        InputReader::Finished => 0,
    }
}

/// One step of the reader moves input from what is to come to what came.
proof fn lemma_reader_step(reader: InputReader, rest: Seq<u8>)
    requires
        reader_wf(reader),
        reader !is Finished,
    ensures
        reader.spec_wanted() > 0,
        rest.len() >= reader.spec_wanted() ==> {
            let bytes = rest.take(reader.spec_wanted() as int);
            let next = reader.spec_next(bytes);
            &&& reader_wf(next)
            &&& next !is Finished
            &&& events_to_come(reader, rest) == reader.spec_events(bytes) + events_to_come(
                next,
                rest.skip(reader.spec_wanted() as int),
            )
        },
        rest.len() < reader.spec_wanted() ==> events_to_come(reader, rest) == Seq::<
            VncInputEvent,
        >::empty(),
{
    let count = reader.spec_wanted() as int;
    if rest.len() >= count {
        let bytes = rest.take(count);
        let after = rest.skip(count);
        match reader {
            InputReader::Kind => {
                let kind = bytes[0];
                assert(seq![kind] + after =~= rest);
                if header_length(kind) == 0 {
                    assert(first_message(rest) == Some(1nat));
                    assert(message_events(kind, first_header(rest)) =~= Seq::empty());
                }
            },
            InputReader::Header { kind } => {
                let whole = seq![kind] + rest;
                assert(first_header(whole) =~= bytes);
                let body = body_length(kind, bytes);
                lemma_body_fits(kind, bytes);
                if after.len() >= body {
                    assert(whole.skip(1 + count + body as int) =~= after.skip(body as int));
                    if body == 0 {
                        assert(after.skip(0) =~= after);
                    }
                } else {
                    assert(first_message(whole) is None);
                }
            },
            _ => {},
        }
    } else {
        match reader {
            InputReader::Header { kind } => {
                assert(first_message(seq![kind] + rest) is None);
            },
            _ => {},
        }
    }
}

/// A variable part can be counted, and messages that have one carry no input.
proof fn lemma_body_fits(kind: u8, header: Seq<u8>)
    requires
        header.len() == header_length(kind),
    ensures
        body_length(kind, header) <= u32::MAX,
        body_length(kind, header) > 0 ==> message_events(kind, header) == Seq::<
            VncInputEvent,
        >::empty(),
{
    reveal_with_fuel(crate::bytes::be_limit, 5);
    if kind == SET_COLOR_MAP_ENTRIES {
        crate::bytes::law_encode_decode(header.subrange(4, 6));
    } else if kind == CUT_TEXT {
        crate::bytes::law_encode_decode(header);
    } else if kind == SET_ENCODINGS || kind == UPDATE_REQUEST || kind == SET_COLOUR_VALUES {
        crate::bytes::law_encode_decode(header.subrange(2, 4));
    }
}

/// Reads the messages in what a client sent, and tells the input that they carry.
pub fn check_client_input(input: &[u8]) -> (events: Vec<VncInputEvent>)
    ensures
        events@ == input_events(input@),
{
    let mut events: Vec<VncInputEvent> = Vec::new();
    let mut reader = InputReader::Kind;
    let mut rest: &[u8] = input;
    assert(events@ + input_events(input@) =~= input_events(input@));
    while reader != InputReader::Finished
        invariant
            reader_wf(reader),
            events@ + events_to_come(reader, rest@) == input_events(input@),
        decreases rest@.len(), reader_rank(reader),
    {
        proof {
            lemma_reader_step(reader, rest@);
        }
        let count: usize = reader.wanted();
        if count <= rest.len() {
            let (bytes, after) = rest.split_at(count);
            assert(bytes@ =~= rest@.take(count as int));
            assert(after@ =~= rest@.skip(count as int));
            let (next, mut more) = reader.advance(bytes);
            let ghost so_far = events@;
            let ghost came = more@;
            events.append(&mut more);
            assert(so_far + (came + events_to_come(next, after@)) =~= events@ + events_to_come(
                next,
                after@,
            ));
            reader = next;
            rest = after;
        } else {
            let (_, end) = rest.split_at(rest.len());
            reader = reader.fail();
            rest = end;
            assert(end@ =~= Seq::<u8>::empty());
            assert(events_to_come(reader, end@) =~= Seq::empty());
        }
    }
    assert(events@ + Seq::<VncInputEvent>::empty() =~= events@);
    events
}

/// Where the reader stands after it read each of `reads` in turn.
pub open spec fn reader_after(reader: InputReader, reads: Seq<Seq<u8>>) -> InputReader
    decreases reads.len(),
{
    if reads.len() == 0 {
        reader
    } else {
        reader_after(reader.spec_next(reads[0]), reads.drop_first())
    }
}

/// The input that came with each of `reads` in turn.
pub open spec fn reader_events(reader: InputReader, reads: Seq<Seq<u8>>) -> Seq<VncInputEvent>
    decreases reads.len(),
{
    if reads.len() == 0 {
        Seq::empty()
    } else {
        reader.spec_events(reads[0]) + reader_events(
            reader.spec_next(reads[0]),
            reads.drop_first(),
        )
    }
}

/// Each of `reads` brought what the reader wanted.
pub open spec fn reads_fit(reader: InputReader, reads: Seq<Seq<u8>>) -> bool
    decreases reads.len(),
{
    reads.len() == 0 || (reads[0].len() == reader.spec_wanted() && reads_fit(
        reader.spec_next(reads[0]),
        reads.drop_first(),
    ))
}

/// Reads that fit bring what was to come, up to one that falls short.
proof fn lemma_reader_run(reader: InputReader, reads: Seq<Seq<u8>>, cut: Seq<u8>)
    requires
        reader_wf(reader),
        reader !is Finished,
        reads_fit(reader, reads),
        cut.len() < reader_after(reader, reads).spec_wanted(),
    ensures
        reader_events(reader, reads) == events_to_come(reader, reads.flatten() + cut),
    decreases reads.len(),
{
    let rest = reads.flatten() + cut;
    lemma_reader_step(reader, rest);
    if reads.len() == 0 {
        assert(rest =~= cut);
    } else {
        let first = reads[0];
        let others = reads.drop_first();
        assert(reads.flatten() == first + others.flatten());
        assert(rest.take(first.len() as int) =~= first);
        assert(rest.skip(first.len() as int) =~= others.flatten() + cut);
        lemma_reader_run(reader.spec_next(first), others, cut);
    }
}

/// A reader that is given what it wants, read by read, until a read fails tells the
/// input in all that the client sent up to there. What the read that failed may have
/// taken, less than the reader wanted, changes nothing.
pub proof fn law_reader_tells_input(reads: Seq<Seq<u8>>, cut: Seq<u8>)
    requires
        reads_fit(InputReader::Kind, reads),
        cut.len() < reader_after(InputReader::Kind, reads).spec_wanted(),
    ensures
        reader_events(InputReader::Kind, reads) == input_events(reads.flatten() + cut),
{
    lemma_reader_run(InputReader::Kind, reads, cut);
}

/// A reader has always something to read: it ends only with a read that fails, and
/// then always, but for the rectangles of an update request.
pub proof fn law_reader_ends_with_failure(reads: Seq<Seq<u8>>)
    requires
        reads_fit(InputReader::Kind, reads),
    ensures
        reader_after(InputReader::Kind, reads).spec_wanted() > 0,
        match reader_after(InputReader::Kind, reads) {
            InputReader::Finished => false,
            InputReader::Body { kind, length } => reader_after(
                InputReader::Kind,
                reads,
            ).spec_failed() == (if kind == UPDATE_REQUEST {
                InputReader::Kind
            } else {
                InputReader::Finished
            }),
            reader => reader.spec_failed() == InputReader::Finished,
        },
{
    lemma_reader_goes_on(InputReader::Kind, reads);
}

/// A reader that is given what it wants goes on.
proof fn lemma_reader_goes_on(reader: InputReader, reads: Seq<Seq<u8>>)
    requires
        reader_wf(reader),
        reader !is Finished,
        reads_fit(reader, reads),
    ensures
        reader_wf(reader_after(reader, reads)),
        reader_after(reader, reads) !is Finished,
    decreases reads.len(),
{
    if reads.len() > 0 {
        lemma_reader_step(reader, reads[0]);
        assert(reads[0].take(reads[0].len() as int) =~= reads[0]);
        lemma_reader_goes_on(reader.spec_next(reads[0]), reads.drop_first());
    }
}

/// `input` is a string of messages that are all there in full.
pub open spec fn complete_messages(input: Seq<u8>) -> bool
    decreases input.len(),
{
    input.len() == 0 || match first_message(input) {
        Some(total) => complete_messages(input.skip(total as int)),
        None => false,
    }
}

/// Whole messages can be read one string after the other: what they carry together
/// is what each carries, in order.
pub proof fn law_messages_concatenate(first: Seq<u8>, second: Seq<u8>)
    requires
        complete_messages(first),
    ensures
        input_events(first + second) == input_events(first) + input_events(second),
    decreases first.len(),
{
    let whole = first + second;
    if first.len() == 0 {
        assert(whole =~= second);
        assert(input_events(first) + input_events(second) =~= input_events(second));
    } else {
        let total = first_message(first).unwrap() as int;
        assert(first_header(whole) =~= first_header(first));
        assert(whole.skip(total) =~= first.skip(total) + second);
        law_messages_concatenate(first.skip(total), second);
        assert(input_events(whole) =~= input_events(first) + input_events(second));
    }
}

/// A message that was cut off carries nothing, wherever it was cut.
pub proof fn law_cut_message_is_silent(message: Seq<u8>, at: nat)
    requires
        first_message(message) == Some(message.len()),
        at < message.len(),
    ensures
        input_events(message.take(at as int)) == Seq::<VncInputEvent>::empty(),
{
    let part = message.take(at as int);
    if part.len() > 0 && part.len() >= 1 + header_length(part[0]) {
        assert(first_header(part) =~= first_header(message));
    }
}

/// A type that is not known is passed over, and reading goes on with the next byte.
pub proof fn law_unknown_type_is_skipped(kind: u8, rest: Seq<u8>)
    requires
        header_length(kind) == 0,
    ensures
        input_events(seq![kind] + rest) == input_events(rest),
{
    let whole = seq![kind] + rest;
    assert(first_message(whole) == Some(1nat));
    assert(whole.skip(1) =~= rest);
    assert(message_events(kind, first_header(whole)) + input_events(rest) =~= input_events(rest));
}

/// A string of one message carries what that message carries.
proof fn lemma_single_message(message: Seq<u8>)
    requires
        first_message(message) == Some(message.len()),
    ensures
        input_events(message) == message_events(message[0], first_header(message)),
{
    let rest = message.skip(message.len() as int);
    assert(first_message(rest) is None);
    assert(input_events(rest) =~= Seq::empty());
    assert(input_events(message) =~= message_events(message[0], first_header(message)));
}

/// A key message gives back the key and its state.
pub proof fn law_key_message(key: u32, down: u8, padding: Seq<u8>)
    requires
        padding.len() == 2,
    ensures
        input_events(
            seq![KEY_EVENT, down] + padding + crate::bytes::be_bytes(key as nat, 4),
        ) == seq![VncInputEvent::Keyboard { key, down: down != 0 }],
{
    reveal_with_fuel(crate::bytes::be_limit, 5);
    crate::bytes::law_decode_encode(key as nat, 4);
    let m = seq![KEY_EVENT, down] + padding + crate::bytes::be_bytes(key as nat, 4);
    assert(first_header(m).subrange(3, 7) =~= crate::bytes::be_bytes(key as nat, 4));
    assert(first_message(m) == Some(8nat));
    assert(first_header(m)[0] == down);
    lemma_single_message(m);
}

/// A key message of the QEMU extension gives back the key and its state.
pub proof fn law_qemu_key_message(key: u32, down: u16, keycode: Seq<u8>)
    requires
        keycode.len() == 5,
    ensures
        input_events(
            seq![QEMU_MESSAGE, QEMU_KEY_EVENT] + crate::bytes::be_bytes(down as nat, 2)
                + crate::bytes::be_bytes(key as nat, 4) + keycode,
        ) == seq![VncInputEvent::Keyboard { key, down: down != 0 }],
{
    reveal_with_fuel(crate::bytes::be_limit, 5);
    crate::bytes::law_decode_encode(down as nat, 2);
    crate::bytes::law_decode_encode(key as nat, 4);
    let m = seq![QEMU_MESSAGE, QEMU_KEY_EVENT] + crate::bytes::be_bytes(down as nat, 2)
        + crate::bytes::be_bytes(key as nat, 4) + keycode;
    assert(first_header(m).subrange(1, 3) =~= crate::bytes::be_bytes(down as nat, 2));
    assert(first_header(m).subrange(3, 7) =~= crate::bytes::be_bytes(key as nat, 4));
    assert(first_message(m) == Some(13nat));
    assert(first_header(m)[0] == QEMU_KEY_EVENT);
    lemma_single_message(m);
}

/// A pointer message gives back the state of the left, the middle and the right
/// button, in that order, and then the place of the pointer.
pub proof fn law_pointer_message(mask: u8, padding: Seq<u8>, x: u16, y: u16)
    requires
        padding.len() == 3,
    ensures
        input_events(
            seq![POINTER_EVENT, mask] + padding + crate::bytes::be_bytes(x as nat, 2)
                + crate::bytes::be_bytes(y as nat, 2),
        ) == seq![
            VncInputEvent::MouseButton { button: 0, down: mask & 1 != 0 },
            VncInputEvent::MouseButton { button: 1, down: mask & 2 != 0 },
            VncInputEvent::MouseButton { button: 2, down: mask & 4 != 0 },
            VncInputEvent::PointerPosition { x: x as u32, y: y as u32 },
        ],
{
    reveal_with_fuel(crate::bytes::be_limit, 3);
    crate::bytes::law_decode_encode(x as nat, 2);
    crate::bytes::law_decode_encode(y as nat, 2);
    let m = seq![POINTER_EVENT, mask] + padding + crate::bytes::be_bytes(x as nat, 2)
        + crate::bytes::be_bytes(y as nat, 2);
    assert(first_header(m).subrange(4, 6) =~= crate::bytes::be_bytes(x as nat, 2));
    assert(first_header(m).subrange(6, 8) =~= crate::bytes::be_bytes(y as nat, 2));
    assert(first_message(m) == Some(9nat));
    assert(first_header(m)[0] == mask);
    lemma_single_message(m);
}

} // verus!
