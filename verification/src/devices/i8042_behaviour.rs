//! What the guest sees of the i8042 controller, command by command and byte by byte.

use vstd::prelude::*;

use crate::devices::i8042::{ControllerState, Effects, I8042Device, InputEvent};

verus! {

/// Bytes that come in follow those that wait, as far as 32 bytes hold them; the status
/// register shows that a byte came in, an empty buffer that is empty no more
/// interrupts, and nothing else changes.
pub proof fn law_bytes_come_in(s: ControllerState, bytes: Seq<u8>)
    ensures
        ({
            let t = s.replied(bytes);
            &&& s.output.len() + bytes.len() <= 32 ==> t.output == s.output + bytes
            &&& s.output.len() <= 32 && s.output.len() + bytes.len() > 32 ==> t.output == (s.output
                + bytes).take(32)
            &&& s.output.len() >= 32 ==> t.output == s.output
            &&& t.status == (if t.output.len() > s.output.len() {
                s.status | 0x01
            } else {
                s.status
            })
            &&& t.input_buffer == s.input_buffer
            &&& t.port_a == s.port_a
            &&& t.port_b == s.port_b
            &&& t.ctr == s.ctr
            &&& t.control_reg == s.control_reg
            &&& t.keyboard_enabled == s.keyboard_enabled
            &&& t.mouse_enabled == s.mouse_enabled
            &&& t.pending_command == s.pending_command
            &&& t.input == s.input
        }),
        s.reply_interrupts(bytes) == (if s.output.len() == 0 && bytes.len() > 0 {
            1int
        } else {
            0
        }),
{
    let t = s.replied(bytes);
    if s.output.len() + bytes.len() > 32 && s.output.len() <= 32 {
        assert(t.output =~= (s.output + bytes).take(32));
    }
    if s.output.len() >= 32 {
        assert(t.output =~= s.output);
    }
}

/// Questions are answered and change nothing: the two self tests with 0x55, the test of
/// the keyboard with 0xFA and 0x55, the pulse with 0xFA, and the registers with what they
/// hold.
pub proof fn law_questions_are_answered(s: ControllerState)
    ensures
        s.after_write(4, 0xAA) == s.replied(seq![0x55u8]),
        s.after_write(4, 0xF0) == s.replied(seq![0x55u8]),
        s.after_write(4, 0xD1) == s.replied(seq![0xFAu8, 0x55u8]),
        s.after_write(4, 0xA9) == s.replied(seq![0xFAu8]),
        s.after_write(4, 0x20) == s.replied(seq![s.ctr]),
        s.after_write(4, 0x21) == s.replied(seq![s.port_b]),
        s.after_write(4, 0xAB) == s.replied(seq![s.control_reg]),
{
}

/// The commands that turn a device on or off do that, show it in port A (the keyboard in
/// bit 0, the mouse in bit 4), and are acknowledged with 0xFA.
pub proof fn law_devices_are_switched(s: ControllerState)
    ensures
        s.after_write(4, 0xAD) == (ControllerState {
            keyboard_enabled: false,
            port_a: s.port_a & !0x01u8,
            ..s
        }).replied(seq![0xFAu8]),
        s.after_write(4, 0xAE) == (ControllerState {
            keyboard_enabled: true,
            port_a: s.port_a | 0x01,
            ..s
        }).replied(seq![0xFAu8]),
        s.after_write(4, 0xA7) == (ControllerState {
            mouse_enabled: false,
            port_a: s.port_a & !0x10u8,
            ..s
        }).replied(seq![0xFAu8]),
        s.after_write(4, 0xA8) == (ControllerState {
            mouse_enabled: true,
            port_a: s.port_a | 0x10,
            ..s
        }).replied(seq![0xFAu8]),
{
}

/// The command that reads the keyboard's input puts the byte that waits first behind the
/// others, and a zero where none waits.
pub proof fn law_keyboard_input_rotates(s: ControllerState)
    requires
        s.output.len() <= 32,
    ensures
        s.output.len() == 0 ==> s.after_write(4, 0xD0) == s.replied(seq![0x00u8]),
        s.output.len() > 0 ==> s.after_write(4, 0xD0) == (ControllerState {
            output: s.output.drop_first().push(s.output[0]),
            status: s.status | 0x01,
            ..s
        }),
        s.write_effects(4, 0xD0).interrupts == (if s.output.len() <= 1 {
            1u8
        } else {
            0
        }),
{
    if s.output.len() > 0 {
        assert(s.after_write(4, 0xD0).output =~= s.output.drop_first().push(s.output[0]));
    }
}

/// The four commands that take a byte of data (port A, the keyboard, the mouse, the
/// control register) are acknowledged with 0xFA, and wait for it.
pub proof fn law_commands_wait_for_data(s: ControllerState, cmd: u8)
    requires
        cmd == 0x60 || cmd == 0xD2 || cmd == 0xD3 || cmd == 0xB0,
    ensures
        s.after_write(4, cmd) == (ControllerState { pending_command: Some(cmd), ..s }).replied(
            seq![0xFAu8],
        ),
{
}

/// Every other command does nothing at all.
pub proof fn law_other_commands_do_nothing(s: ControllerState, cmd: u8)
    requires
        !seq![
            0x20u8, 0x21, 0x60, 0xA7, 0xA8, 0xA9, 0xAA, 0xAB, 0xAD, 0xAE, 0xB0, 0xD0, 0xD1, 0xD2,
            0xD3, 0xF0,
        ].contains(cmd),
    ensures
        s.after_write(4, cmd) == s,
        s.write_effects(4, cmd) == (Effects { interrupts: 0, reset: cmd == 0xFE }),
{
    let known = seq![
        0x20u8, 0x21, 0x60, 0xA7, 0xA8, 0xA9, 0xAA, 0xAB, 0xAD, 0xAE, 0xB0, 0xD0, 0xD1, 0xD2,
        0xD3, 0xF0,
    ];
    assert(known[0] == 0x20 && known[1] == 0x21 && known[2] == 0x60 && known[3] == 0xA7 && known[4]
        == 0xA8 && known[5] == 0xA9 && known[6] == 0xAA && known[7] == 0xAB && known[8] == 0xAD
        && known[9] == 0xAE && known[10] == 0xB0 && known[11] == 0xD0 && known[12] == 0xD1
        && known[13] == 0xD2 && known[14] == 0xD3 && known[15] == 0xF0);
    assert(s.replied(Seq::empty()) =~= s);
}

/// A byte of data that a command waited for ends the wait. It goes to port A, to the
/// control register, or to a device; the keyboard answers the question for its identity
/// with 0xFA, 0xAB, 0x83, and no device answers anything else.
pub proof fn law_awaited_data(s: ControllerState, cmd: u8, data: u8)
    requires
        s.pending_command == Some(cmd),
    ensures
        cmd == 0x60 ==> s.after_write(0, data) == (ControllerState {
            pending_command: None,
            port_a: data,
            ..s
        }),
        cmd == 0xB0 ==> s.after_write(0, data) == (ControllerState {
            pending_command: None,
            control_reg: data,
            ..s
        }),
        cmd == 0xD2 && data == 0xF2 ==> s.after_write(0, data) == (ControllerState {
            pending_command: None,
            ..s
        }).replied(seq![0xFAu8, 0xAB, 0x83]),
        cmd == 0xD2 && data != 0xF2 ==> s.after_write(0, data) == (ControllerState {
            pending_command: None,
            ..s
        }),
        cmd != 0x60 && cmd != 0xB0 && cmd != 0xD2 ==> s.after_write(0, data) == (ControllerState {
            pending_command: None,
            ..s
        }),
{
    let t = ControllerState { pending_command: None, ..s };
    assert(t.replied(Seq::empty()) =~= t);
    let a = ControllerState { port_a: data, ..t };
    assert(a.replied(Seq::empty()) =~= a);
    let c = ControllerState { control_reg: data, ..t };
    assert(c.replied(Seq::empty()) =~= c);
}

/// A byte of data that no command waited for goes to the keyboard. It turns the keyboard
/// on (0xF4) or off (0xF5), acknowledged with 0xFA. A keyboard that is on acknowledges
/// the lights (0xED) and tells its identity (0xF2). Any other byte is kept, and nothing
/// else happens.
pub proof fn law_data_for_the_keyboard(s: ControllerState, data: u8)
    requires
        s.pending_command is None,
    ensures
        data == 0xF4 ==> s.after_write(0, data) == (ControllerState {
            keyboard_enabled: true,
            port_a: s.port_a | 0x01,
            ..s
        }).replied(seq![0xFAu8]),
        data == 0xF5 ==> s.after_write(0, data) == (ControllerState {
            keyboard_enabled: false,
            port_a: s.port_a & !0x01u8,
            ..s
        }).replied(seq![0xFAu8]),
        data == 0xF2 && s.keyboard_enabled ==> s.after_write(0, data) == s.replied(
            seq![0xFAu8, 0xAB, 0x83],
        ),
        data == 0xED && s.keyboard_enabled ==> s.after_write(0, data) == s.replied(seq![0xFAu8]),
        data != 0xF4 && data != 0xF5 && !((data == 0xF2 || data == 0xED) && s.keyboard_enabled)
            ==> s.after_write(0, data) == (ControllerState { input_buffer: Some(data), ..s }),
{
    let kept = ControllerState { input_buffer: Some(data), ..s };
    assert(kept.replied(Seq::empty()) =~= kept);
}

/// Ports other than the data port, port B and the command port read as zero, and take
/// what is written to them without effect.
pub proof fn law_other_ports(s: ControllerState, offset: u64, data: u8)
    requires
        offset != 0,
        offset != 1,
        offset != 4,
    ensures
        s.read_byte(offset) == 0,
        s.after_read(offset) == s,
        s.after_write(offset, data) == s,
        s.read_effects(offset) == (Effects { interrupts: 0, reset: false }),
        s.write_effects(offset, data) == (Effects { interrupts: 0, reset: false }),
{
}

/// Port B takes what is written to it and reads as what it holds; the command port reads
/// as the status with the system flag and the keylock. Neither read has any effect.
pub proof fn law_quiet_reads(s: ControllerState, data: u8)
    ensures
        s.read_byte(1) == s.port_b,
        s.read_byte(4) == s.status | 0x04 | 0x10,
        s.after_write(1, data) == (ControllerState { port_b: data, ..s }),
        s.after_read(1) == s,
        s.after_read(4) == s,
        s.read_effects(1) == (Effects { interrupts: 0, reset: false }),
        s.read_effects(4) == (Effects { interrupts: 0, reset: false }),
        s.write_effects(1, data) == (Effects { interrupts: 0, reset: false }),
{
}

/// With no input pending, a read of the data port gives the byte that waits first, takes
/// it away, interrupts where others wait behind it, and clears the lowest bit of the
/// status where none does. Nothing else changes; with nothing waiting the read gives
/// 0xFF, and nothing changes at all.
pub proof fn law_data_port_read(s: ControllerState)
    requires
        s.input.len() == 0,
    ensures
        s.read_byte(0) == (if s.output.len() > 0 {
            s.output[0]
        } else {
            0xFF
        }),
        s.output.len() > 0 ==> s.after_read(0) == (ControllerState {
            output: s.output.drop_first(),
            status: if s.output.len() == 1 {
                s.status & !0x01u8
            } else {
                s.status
            },
            ..s
        }),
        s.output.len() == 0 ==> s.after_read(0) == s,
        s.read_effects(0) == (Effects {
            interrupts: if s.output.len() > 1 {
                1
            } else {
                0
            },
            reset: false,
        }),
{
    assert(ControllerState { input: Seq::empty(), ..s } =~= s);
}

/// A mouse packet is three bytes: the flags, and the two distances in two's complement, a
/// distance that is too long cut to the longest that a byte holds.
pub proof fn law_mouse_distances(s: ControllerState, buttons: u8, dx: i16, dy: i16)
    requires
        s.mouse_enabled,
    ensures
        ({
            let packet = s.event_bytes(InputEvent::Mouse { buttons, dx, dy });
            &&& packet.len() == 3
            &&& 0 <= dx <= 127 ==> packet[1] == dx
            &&& -128 <= dx < 0 ==> packet[1] == dx + 256
            &&& dx > 127 ==> packet[1] == 0x7F
            &&& dx < -128 ==> packet[1] == 0x80
            &&& 0 <= dy <= 127 ==> packet[2] == dy
            &&& -128 <= dy < 0 ==> packet[2] == dy + 256
            &&& dy > 127 ==> packet[2] == 0x7F
            &&& dy < -128 ==> packet[2] == 0x80
        }),
{
}

/// The first byte of the packet that a mouse event is worth: bit 7 is set, the buttons
/// are in bits 0 to 2, the overflow flags in bits 3 (Y) and 4 (X), and the signs in bits 5
/// (Y) and 6 (X).
pub proof fn law_mouse_flags(s: ControllerState, buttons: u8, dx: i16, dy: i16)
    requires
        s.mouse_enabled,
    ensures
        ({
            let flags = s.event_bytes(InputEvent::Mouse { buttons, dx, dy })[0];
            &&& flags & 0x80 == 0x80
            &&& flags & 0x07 == buttons & 0x07
            &&& (flags & 0x08 != 0) == (dy < -128 || dy > 127)
            &&& (flags & 0x10 != 0) == (dx < -128 || dx > 127)
            &&& (flags & 0x20 != 0) == (dy < 0)
            &&& (flags & 0x40 != 0) == (dx < 0)
        }),
{
    crate::devices::i8042_laws::law_mouse_packet_layout(buttons, dx, dy);
}

/// A key event is worth the codes of the key while the keyboard is on; a device that is
/// off is worth nothing. The event comes in as its bytes.
pub proof fn law_event_bytes(s: ControllerState, event: InputEvent)
    ensures
        match event {
            InputEvent::Keyboard { key, pressed } => s.event_bytes(event) == (
            if s.keyboard_enabled {
                crate::devices::keyboard_map::key_bytes(key, pressed)
            } else {
                Seq::<u8>::empty()
            }),
            InputEvent::Mouse { .. } => s.event_bytes(event).len() == (if s.mouse_enabled {
                3nat
            } else {
                0
            }),
        },
        s.after_event(event) == s.replied(s.event_bytes(event)),
{
}

/// What the events are worth, one after the other.
spec fn worth(s: ControllerState, events: Seq<InputEvent>) -> Seq<u8> {
    Seq::new(events.len(), |i: int| s.event_bytes(events[i])).flatten()
}

/// The last event comes behind all others.
proof fn lemma_worth_last(s: ControllerState, events: Seq<InputEvent>)
    requires
        events.len() > 0,
    ensures
        worth(s, events) == worth(s, events.drop_last()) + s.event_bytes(events.last()),
{
    let all = Seq::new(events.len(), |i: int| s.event_bytes(events[i]));
    let others = Seq::new(
        events.drop_last().len(),
        |i: int| s.event_bytes(events.drop_last()[i]),
    );
    assert(all =~= others.push(s.event_bytes(events.last())));
    lemma_flatten_push(others, s.event_bytes(events.last()));
}

/// Flattening with one more at the end.
proof fn lemma_flatten_push(parts: Seq<Seq<u8>>, last: Seq<u8>)
    ensures
        parts.push(last).flatten() == parts.flatten() + last,
    decreases parts.len(),
{
    let whole = parts.push(last);
    if parts.len() == 0 {
        assert(whole.drop_first() =~= Seq::<Seq<u8>>::empty());
        assert(Seq::<Seq<u8>>::empty().flatten() =~= Seq::empty());
        assert(whole.flatten() =~= last);
        assert(parts.flatten() + last =~= last);
    } else {
        assert(whole.drop_first() =~= parts.drop_first().push(last));
        lemma_flatten_push(parts.drop_first(), last);
        assert(whole.flatten() =~= parts.flatten() + last);
    }
}

/// Events come in one after the other as their bytes would together.
proof fn lemma_events_in_turn(s: ControllerState, events: Seq<InputEvent>)
    ensures
        s.after_events(events) == s.replied(worth(s, events)),
    decreases events.len(),
{
    if events.len() == 0 {
        assert(worth(s, events) =~= Seq::empty()) by {
            assert(Seq::new(0, |i: int| s.event_bytes(events[i])) =~= Seq::<Seq<u8>>::empty());
        }
        assert(s.replied(Seq::empty()) =~= s);
    } else {
        let before = events.drop_last();
        lemma_events_in_turn(s, before);
        lemma_worth_last(s, events);
        let t = s.after_events(before);
        assert(t.event_bytes(events.last()) == s.event_bytes(events.last()));
        crate::devices::i8042::lemma_replied_concat(
            s,
            worth(s, before),
            s.event_bytes(events.last()),
        );
    }
}

/// Input that was queued comes in in the order in which it was queued: draining the queue
/// puts the bytes of the first event, then those of the second, and so on to the last,
/// behind the bytes that wait, and leaves the queue empty.
pub proof fn law_input_keeps_its_order(s: ControllerState)
    ensures
        s.drained() == (ControllerState { input: Seq::empty(), ..s }).replied(
            Seq::new(s.input.len(), |i: int| s.event_bytes(s.input[i])).flatten(),
        ),
{
    let t = ControllerState { input: Seq::empty(), ..s };
    lemma_events_in_turn(t, s.input);
    assert(Seq::new(s.input.len(), |i: int| t.event_bytes(s.input[i])) =~= Seq::new(
        s.input.len(),
        |i: int| s.event_bytes(s.input[i]),
    ));
}

/// The guest reads what waited before the input, then the bytes of the input, in the
/// order in which it was queued, as long as all of it fits into the buffer.
pub proof fn law_queued_input_is_read_in_order(s: ControllerState, n: nat)
    requires
        ({
            let bytes = s.output + Seq::new(
                s.input.len(),
                |i: int| s.event_bytes(s.input[i]),
            ).flatten();
            n < bytes.len() <= 32
        }),
    ensures
        ({
            let bytes = s.output + Seq::new(
                s.input.len(),
                |i: int| s.event_bytes(s.input[i]),
            ).flatten();
            crate::devices::i8042_laws::after_data_reads(s, n).read_byte(0) == bytes[n as int]
        }),
{
    law_input_keeps_its_order(s);
    let t = ControllerState { input: Seq::empty(), ..s };
    law_bytes_come_in(
        t,
        Seq::new(s.input.len(), |i: int| s.event_bytes(s.input[i])).flatten(),
    );
    crate::devices::i8042_laws::lemma_drained_reads(s, n);
    crate::devices::i8042_laws::law_data_port_is_fifo(s.drained(), n);
}

/// Of two queued events the guest reads all bytes of the earlier one, and then those of
/// the later one.
pub proof fn law_earlier_event_is_read_first(
    s: ControllerState,
    earlier: InputEvent,
    later: InputEvent,
    n: nat,
)
    requires
        s.output.len() == 0,
        s.input == seq![earlier, later],
        n < s.event_bytes(earlier).len() + s.event_bytes(later).len(),
    ensures
        crate::devices::i8042_laws::after_data_reads(s, n).read_byte(0) == (if n < s.event_bytes(
            earlier,
        ).len() {
            s.event_bytes(earlier)[n as int]
        } else {
            s.event_bytes(later)[n - s.event_bytes(earlier).len()]
        }),
{
    let parts = Seq::new(s.input.len(), |i: int| s.event_bytes(s.input[i]));
    assert(parts =~= Seq::<Seq<u8>>::empty().push(s.event_bytes(earlier)).push(
        s.event_bytes(later),
    ));
    lemma_flatten_push(Seq::<Seq<u8>>::empty(), s.event_bytes(earlier));
    lemma_flatten_push(
        Seq::<Seq<u8>>::empty().push(s.event_bytes(earlier)),
        s.event_bytes(later),
    );
    assert(Seq::<Seq<u8>>::empty().flatten() =~= Seq::empty());
    assert(s.output + parts.flatten() =~= s.event_bytes(earlier) + s.event_bytes(later));
    lemma_event_length(s, earlier);
    lemma_event_length(s, later);
    law_queued_input_is_read_in_order(s, n);
}

/// An event is worth three bytes at most.
proof fn lemma_event_length(s: ControllerState, event: InputEvent)
    ensures
        s.event_bytes(event).len() <= 3,
{
    if let InputEvent::Keyboard { key, pressed } = event {
        crate::devices::keyboard_map::law_key_bytes_length(key, pressed);
    }
}

/// Draining the queue interrupts, once, exactly where nothing waited and the first event
/// that is worth anything is a mouse event.
pub proof fn law_drain_interrupts(s: ControllerState)
    ensures
        s.drain_interrupts() == 0 || s.drain_interrupts() == 1,
        s.drain_interrupts() == 1 <==> s.output.len() == 0 && exists|k: int|
            0 <= k < s.input.len() && (#[trigger] s.input[k]) is Mouse && s.mouse_enabled && forall|
                j: int,
            |
                0 <= j < k ==> s.event_bytes(#[trigger] s.input[j]).len() == 0,
{
    let t = ControllerState { input: Seq::empty(), ..s };
    lemma_drain_interrupts(t, s.input);
    assert forall|e: InputEvent| t.event_bytes(e) == #[trigger] s.event_bytes(e) by {}
    if s.output.len() == 0 {
        if s.drain_interrupts() == 1 {
            let k = choose|k: int|
                0 <= k < s.input.len() && (#[trigger] s.input[k]) is Mouse && t.mouse_enabled
                    && forall|j: int| 0 <= j < k ==> t.event_bytes(#[trigger] s.input[j]).len() == 0;
            assert(s.input[k] is Mouse);
        }
    }
}

/// The same, event by event.
proof fn lemma_drain_interrupts(s: ControllerState, events: Seq<InputEvent>)
    ensures
        s.events_interrupts(events) == 0 || s.events_interrupts(events) == 1,
        s.events_interrupts(events) == 1 <==> s.output.len() == 0 && exists|k: int|
            0 <= k < events.len() && (#[trigger] events[k]) is Mouse && s.mouse_enabled && forall|
                j: int,
            |
                0 <= j < k ==> s.event_bytes(#[trigger] events[j]).len() == 0,
        s.after_events(events).output.len() >= s.output.len(),
        s.output.len() == 0 ==> (s.after_events(events).output.len() == 0 <==> forall|j: int|
            0 <= j < events.len() ==> s.event_bytes(#[trigger] events[j]).len() == 0),
        s.after_events(events).keyboard_enabled == s.keyboard_enabled,
        s.after_events(events).mouse_enabled == s.mouse_enabled,
    decreases events.len(),
{
    if events.len() > 0 {
        let before = events.drop_last();
        let n = before.len() as int;
        lemma_drain_interrupts(s, before);
        let t = s.after_events(before);
        let last = events.last();
        assert(events[n] == last);
        assert forall|j: int| 0 <= j < n implies #[trigger] events[j] == before[j] by {}
        assert(t.event_bytes(last) == s.event_bytes(last));
        if s.output.len() == 0 {
            if s.events_interrupts(before) == 1 {
                let k = choose|k: int|
                    0 <= k < before.len() && (#[trigger] before[k]) is Mouse && s.mouse_enabled
                        && forall|j: int|
                        0 <= j < k ==> s.event_bytes(#[trigger] before[j]).len() == 0;
                assert(events[k] is Mouse);
                assert(s.event_bytes(before[k]).len() == 3);
                assert(t.output.len() > 0);
            } else if t.output.len() == 0 {
                if last is Mouse && s.mouse_enabled {
                    assert(events[n] is Mouse);
                }
            } else {
                assert(exists|j: int|
                    0 <= j < n && s.event_bytes(#[trigger] before[j]).len() != 0);
                let j = choose|j: int|
                    0 <= j < n && s.event_bytes(#[trigger] before[j]).len() != 0;
                assert(s.event_bytes(events[j]).len() != 0);
            }
        }
    }
}

/// A read of the data port takes the pending input in, and then reads: it interrupts as
/// draining does, and once more where bytes are left.
pub proof fn law_data_port_takes_input_in(s: ControllerState)
    ensures
        s.read_byte(0) == s.drained().read_byte(0),
        s.after_read(0) == s.drained().after_read(0),
        s.read_effects(0).interrupts == s.drain_interrupts() + (if s.drained().output.len() > 1 {
            1int
        } else {
            0
        }),
        !s.read_effects(0).reset,
{
    law_input_keeps_its_order(s);
    crate::devices::i8042_laws::lemma_drained_reads(s, 0);
    law_drain_interrupts(s);
}

/// The state of a controller is what its registers and its two queues hold, the queues
/// with the oldest first.
pub proof fn law_state_of_a_controller(device: I8042Device)
    ensures
        device@.status == device.status,
        device@.output == device.output_buffer@,
        device@.input_buffer == device.input_buffer,
        device@.port_a == device.port_a,
        device@.port_b == device.port_b,
        device@.ctr == device.ctr,
        device@.control_reg == device.control_reg,
        device@.keyboard_enabled == device.keyboard_enabled,
        device@.mouse_enabled == device.mouse_enabled,
        device@.pending_command == device.pending_command,
        device@.input == device.input_channel@,
{
}

/// An input event that comes in alone interrupts only where it is one of a mouse that is
/// on, and nothing waited.
pub proof fn law_event_interrupts(s: ControllerState, event: InputEvent)
    ensures
        s.event_interrupts(event) == (if event is Mouse && s.mouse_enabled && s.output.len() == 0 {
            1int
        } else {
            0
        }),
{
}

/// What is written to the command port is a command, and what is written to the data port
/// is data.
pub proof fn law_ports_of_commands_and_data(s: ControllerState, byte: u8)
    ensures
        s.after_command(byte) == s.after_write(4, byte),
        s.command_effects(byte) == s.write_effects(4, byte),
        s.after_data(byte) == s.after_write(0, byte),
        s.data_effects(byte) == s.write_effects(0, byte),
{
}

/// A write interrupts once where it puts the first byte into an empty buffer, and never
/// otherwise: at the data port, and at the command port for every command but the one that
/// puts the byte which waits first behind the others.
pub proof fn law_write_interrupts(s: ControllerState, offset: u64, data: u8)
    requires
        !(offset == 4 && data == 0xD0),
    ensures
        s.write_effects(offset, data).interrupts == 1 <==> s.output.len() == 0 && s.after_write(
            offset,
            data,
        ).output.len() > 0,
        s.write_effects(offset, data).interrupts <= 1,
        s.write_effects(offset, data).reset == (offset == 4 && data == 0xFE),
{
}

} // verus!
