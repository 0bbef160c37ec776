//! What each message of a VNC client is worth, byte by byte.

use vstd::prelude::*;

use crate::display::client_input::VncInputEvent;

verus! {

/// A message that is there in full is worth what its fixed part carries, and reading goes
/// on behind it.
proof fn lemma_message_then_rest(kind: u8, header: Seq<u8>, body: Seq<u8>, rest: Seq<u8>)
    requires
        header.len() == crate::display::client_input::header_length(kind),
        body.len() == crate::display::client_input::body_length(kind, header),
    ensures
        crate::display::client_input::input_events(seq![kind] + header + body + rest)
            == crate::display::client_input::message_events(kind, header)
            + crate::display::client_input::input_events(rest),
{
    let whole = seq![kind] + header + body + rest;
    assert(crate::display::client_input::first_header(whole) =~= header);
    assert(whole.skip((1 + header.len() + body.len()) as int) =~= rest);
}

/// Two bytes give a number back.
proof fn lemma_count(n: u16)
    ensures
        crate::bytes::be_bytes(n as nat, 2).len() == 2,
        crate::bytes::be_value(crate::bytes::be_bytes(n as nat, 2)) == n,
{
    reveal_with_fuel(crate::bytes::be_limit, 3);
    crate::bytes::law_decode_encode(n as nat, 2);
}

/// Four bytes give a number back.
proof fn lemma_long_count(n: u32)
    ensures
        crate::bytes::be_bytes(n as nat, 4).len() == 4,
        crate::bytes::be_value(crate::bytes::be_bytes(n as nat, 4)) == n,
{
    reveal_with_fuel(crate::bytes::be_limit, 5);
    crate::bytes::law_decode_encode(n as nat, 4);
}

/// SetPixelFormat (0) is passed over with the 23 bytes that follow its type.
pub proof fn law_set_pixel_format_is_passed_over(format: Seq<u8>, rest: Seq<u8>)
    requires
        format.len() == 23,
    ensures
        crate::display::client_input::input_events(seq![0u8] + format + rest)
            == crate::display::client_input::input_events(rest),
{
    lemma_message_then_rest(0, format, Seq::empty(), rest);
    assert(seq![0u8] + format + Seq::empty() + rest =~= seq![0u8] + format + rest);
    assert(Seq::<VncInputEvent>::empty() + crate::display::client_input::input_events(rest)
        =~= crate::display::client_input::input_events(rest));
}

/// SetColorMapEntries (1) is passed over with the four bytes before its count, the count,
/// and six bytes for each entry.
pub proof fn law_color_map_is_passed_over(
    before: Seq<u8>,
    n: u16,
    entries: Seq<u8>,
    rest: Seq<u8>,
)
    requires
        before.len() == 4,
        entries.len() == 6 * n,
    ensures
        crate::display::client_input::input_events(
            seq![1u8] + before + crate::bytes::be_bytes(n as nat, 2) + entries + rest,
        ) == crate::display::client_input::input_events(rest),
{
    lemma_count(n);
    let header = before + crate::bytes::be_bytes(n as nat, 2);
    assert(header.subrange(4, 6) =~= crate::bytes::be_bytes(n as nat, 2));
    lemma_message_then_rest(1, header, entries, rest);
    assert(seq![1u8] + before + crate::bytes::be_bytes(n as nat, 2) + entries + rest =~= seq![1u8]
        + header + entries + rest);
    assert(Seq::<VncInputEvent>::empty() + crate::display::client_input::input_events(rest)
        =~= crate::display::client_input::input_events(rest));
}

/// SetEncodings (2) is passed over with the two bytes before its count, the count, and four
/// bytes for each encoding.
pub proof fn law_set_encodings_is_passed_over(
    before: Seq<u8>,
    n: u16,
    encodings: Seq<u8>,
    rest: Seq<u8>,
)
    requires
        before.len() == 2,
        encodings.len() == 4 * n,
    ensures
        crate::display::client_input::input_events(
            seq![2u8] + before + crate::bytes::be_bytes(n as nat, 2) + encodings + rest,
        ) == crate::display::client_input::input_events(rest),
{
    lemma_count(n);
    let header = before + crate::bytes::be_bytes(n as nat, 2);
    assert(header.subrange(2, 4) =~= crate::bytes::be_bytes(n as nat, 2));
    lemma_message_then_rest(2, header, encodings, rest);
    assert(seq![2u8] + before + crate::bytes::be_bytes(n as nat, 2) + encodings + rest
        =~= seq![2u8] + header + encodings + rest);
    assert(Seq::<VncInputEvent>::empty() + crate::display::client_input::input_events(rest)
        =~= crate::display::client_input::input_events(rest));
}

/// An update request (3) is passed over with the two bytes before its count, the count,
/// and twelve bytes for each rectangle.
pub proof fn law_update_request_is_passed_over(
    before: Seq<u8>,
    n: u16,
    rectangles: Seq<u8>,
    rest: Seq<u8>,
)
    requires
        before.len() == 2,
        rectangles.len() == 12 * n,
    ensures
        crate::display::client_input::input_events(
            seq![3u8] + before + crate::bytes::be_bytes(n as nat, 2) + rectangles + rest,
        ) == crate::display::client_input::input_events(rest),
{
    lemma_count(n);
    let header = before + crate::bytes::be_bytes(n as nat, 2);
    assert(header.subrange(2, 4) =~= crate::bytes::be_bytes(n as nat, 2));
    lemma_message_then_rest(3, header, rectangles, rest);
    assert(seq![3u8] + before + crate::bytes::be_bytes(n as nat, 2) + rectangles + rest
        =~= seq![3u8] + header + rectangles + rest);
    assert(Seq::<VncInputEvent>::empty() + crate::display::client_input::input_events(rest)
        =~= crate::display::client_input::input_events(rest));
}

/// Text of the clipboard (6) is passed over with its length, in four bytes, and as many
/// bytes of text.
pub proof fn law_cut_text_is_passed_over(n: u32, text: Seq<u8>, rest: Seq<u8>)
    requires
        text.len() == n,
    ensures
        crate::display::client_input::input_events(
            seq![6u8] + crate::bytes::be_bytes(n as nat, 4) + text + rest,
        ) == crate::display::client_input::input_events(rest),
{
    lemma_long_count(n);
    lemma_message_then_rest(6, crate::bytes::be_bytes(n as nat, 4), text, rest);
    assert(Seq::<VncInputEvent>::empty() + crate::display::client_input::input_events(rest)
        =~= crate::display::client_input::input_events(rest));
}

/// SetColourValues (9) is passed over with the two bytes before its count, the count, and
/// six bytes for each colour.
pub proof fn law_colour_values_is_passed_over(
    before: Seq<u8>,
    n: u16,
    colours: Seq<u8>,
    rest: Seq<u8>,
)
    requires
        before.len() == 2,
        colours.len() == 6 * n,
    ensures
        crate::display::client_input::input_events(
            seq![9u8] + before + crate::bytes::be_bytes(n as nat, 2) + colours + rest,
        ) == crate::display::client_input::input_events(rest),
{
    lemma_count(n);
    let header = before + crate::bytes::be_bytes(n as nat, 2);
    assert(header.subrange(2, 4) =~= crate::bytes::be_bytes(n as nat, 2));
    lemma_message_then_rest(9, header, colours, rest);
    assert(seq![9u8] + before + crate::bytes::be_bytes(n as nat, 2) + colours + rest =~= seq![9u8]
        + header + colours + rest);
    assert(Seq::<VncInputEvent>::empty() + crate::display::client_input::input_events(rest)
        =~= crate::display::client_input::input_events(rest));
}

/// A key message (4) is the key's state, two bytes that do not matter, and the key in four
/// bytes. It is worth that key, and what follows is read as if nothing had come before.
pub proof fn law_key_comes_first(down: u8, padding: Seq<u8>, key: u32, rest: Seq<u8>)
    requires
        padding.len() == 2,
    ensures
        crate::display::client_input::input_events(
            seq![4u8, down] + padding + crate::bytes::be_bytes(key as nat, 4) + rest,
        ) == seq![VncInputEvent::Keyboard { key, down: down != 0 }]
            + crate::display::client_input::input_events(rest),
{
    lemma_long_count(key);
    let header = seq![down] + padding + crate::bytes::be_bytes(key as nat, 4);
    assert(header.subrange(3, 7) =~= crate::bytes::be_bytes(key as nat, 4));
    lemma_message_then_rest(4, header, Seq::empty(), rest);
    assert(seq![4u8, down] + padding + crate::bytes::be_bytes(key as nat, 4) + rest =~= seq![4u8]
        + header + Seq::empty() + rest);
}

/// A pointer message (5) is the state of the buttons, three bytes that do not matter, and
/// the place in two bytes each. It is worth the left, the middle and the right button,
/// from bits 0, 1 and 2, and the place, and what follows is read as if nothing had come
/// before.
pub proof fn law_pointer_comes_first(
    mask: u8,
    padding: Seq<u8>,
    x: u16,
    y: u16,
    rest: Seq<u8>,
)
    requires
        padding.len() == 3,
    ensures
        crate::display::client_input::input_events(
            seq![5u8, mask] + padding + crate::bytes::be_bytes(x as nat, 2)
                + crate::bytes::be_bytes(y as nat, 2) + rest,
        ) == seq![
            VncInputEvent::MouseButton { button: 0, down: mask & 1 != 0 },
            VncInputEvent::MouseButton { button: 1, down: mask & 2 != 0 },
            VncInputEvent::MouseButton { button: 2, down: mask & 4 != 0 },
            VncInputEvent::PointerPosition { x: x as u32, y: y as u32 },
        ] + crate::display::client_input::input_events(rest),
{
    lemma_count(x);
    lemma_count(y);
    let header = seq![mask] + padding + crate::bytes::be_bytes(x as nat, 2)
        + crate::bytes::be_bytes(y as nat, 2);
    assert(header.subrange(4, 6) =~= crate::bytes::be_bytes(x as nat, 2));
    assert(header.subrange(6, 8) =~= crate::bytes::be_bytes(y as nat, 2));
    lemma_message_then_rest(5, header, Seq::empty(), rest);
    assert(seq![5u8, mask] + padding + crate::bytes::be_bytes(x as nat, 2)
        + crate::bytes::be_bytes(y as nat, 2) + rest =~= seq![5u8] + header + Seq::empty() + rest);
}

/// A message of the QEMU extension (255) is twelve bytes long behind its type. With
/// sub-type 0 it is the key's state in two bytes, the key in four, and five bytes that do
/// not matter, and worth that key.
pub proof fn law_qemu_key_comes_first(down: u16, key: u32, keycode: Seq<u8>, rest: Seq<u8>)
    requires
        keycode.len() == 5,
    ensures
        crate::display::client_input::input_events(
            seq![0xFFu8, 0u8] + crate::bytes::be_bytes(down as nat, 2) + crate::bytes::be_bytes(
                key as nat,
                4,
            ) + keycode + rest,
        ) == seq![VncInputEvent::Keyboard { key, down: down != 0 }]
            + crate::display::client_input::input_events(rest),
{
    lemma_count(down);
    lemma_long_count(key);
    let header = seq![0u8] + crate::bytes::be_bytes(down as nat, 2) + crate::bytes::be_bytes(
        key as nat,
        4,
    ) + keycode;
    assert(header.subrange(1, 3) =~= crate::bytes::be_bytes(down as nat, 2));
    assert(header.subrange(3, 7) =~= crate::bytes::be_bytes(key as nat, 4));
    lemma_message_then_rest(0xFF, header, Seq::empty(), rest);
    assert(seq![0xFFu8, 0u8] + crate::bytes::be_bytes(down as nat, 2) + crate::bytes::be_bytes(
        key as nat,
        4,
    ) + keycode + rest =~= seq![0xFFu8] + header + Seq::empty() + rest);
}

/// A message of the QEMU extension with another sub-type is passed over.
pub proof fn law_other_qemu_is_passed_over(sub_type: u8, data: Seq<u8>, rest: Seq<u8>)
    requires
        sub_type != 0,
        data.len() == 11,
    ensures
        crate::display::client_input::input_events(seq![0xFFu8, sub_type] + data + rest)
            == crate::display::client_input::input_events(rest),
{
    lemma_message_then_rest(0xFF, seq![sub_type] + data, Seq::empty(), rest);
    assert(seq![0xFFu8, sub_type] + data + rest =~= seq![0xFFu8] + (seq![sub_type] + data)
        + Seq::empty() + rest);
    assert(Seq::<VncInputEvent>::empty() + crate::display::client_input::input_events(rest)
        =~= crate::display::client_input::input_events(rest));
}

/// A type that is none of these is passed over alone.
pub proof fn law_other_types_are_passed_over(kind: u8, rest: Seq<u8>)
    requires
        kind > 6,
        kind != 9,
        kind != 0xFF,
    ensures
        crate::display::client_input::input_events(seq![kind] + rest)
            == crate::display::client_input::input_events(rest),
{
    lemma_message_then_rest(kind, Seq::empty(), Seq::empty(), rest);
    assert(seq![kind] + Seq::empty() + Seq::empty() + rest =~= seq![kind] + rest);
    assert(Seq::<VncInputEvent>::empty() + crate::display::client_input::input_events(rest)
        =~= crate::display::client_input::input_events(rest));
}

/// Nothing is worth nothing.
pub proof fn law_no_input()
    ensures
        crate::display::client_input::input_events(Seq::empty()) == Seq::<VncInputEvent>::empty(),
{
}

/// A message that is not there in full is worth nothing, and neither is what there is of
/// it: fewer bytes than the message's type asks for, or than its count does.
pub proof fn law_unfinished_message_is_silent(input: Seq<u8>)
    requires
        input.len() > 0,
        ({
            let kind = input[0];
            let n = input.len();
            ||| kind == 0 && n < 24
            ||| kind == 1 && (n < 7 || n < 7 + 6 * (input[5] * 256 + input[6]))
            ||| kind == 2 && (n < 5 || n < 5 + 4 * (input[3] * 256 + input[4]))
            ||| kind == 3 && (n < 5 || n < 5 + 12 * (input[3] * 256 + input[4]))
            ||| kind == 4 && n < 8
            ||| kind == 5 && n < 9
            ||| kind == 6 && (n < 5 || n < 5 + input[1] * 0x100_0000 + input[2] * 0x1_0000
                + input[3] * 0x100 + input[4])
            ||| kind == 9 && (n < 5 || n < 5 + 6 * (input[3] * 256 + input[4]))
            ||| kind == 0xFF && n < 13
        }),
    ensures
        crate::display::client_input::input_events(input) == Seq::<VncInputEvent>::empty(),
{
    let kind = input[0];
    let n = input.len();
    if n >= 1 + crate::display::client_input::header_length(kind) {
        let header = crate::display::client_input::first_header(input);
        if kind == 1 {
            assert(header.subrange(4, 6) =~= seq![input[5], input[6]]);
            crate::bytes::law_two_bytes(input[5], input[6]);
        } else if kind == 2 || kind == 3 || kind == 9 {
            assert(header.subrange(2, 4) =~= seq![input[3], input[4]]);
            crate::bytes::law_two_bytes(input[3], input[4]);
        } else if kind == 6 {
            assert(header =~= seq![input[1], input[2], input[3], input[4]]);
            crate::bytes::law_four_bytes(input[1], input[2], input[3], input[4]);
        }
    }
}

} // verus!
