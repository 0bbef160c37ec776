//! What holds of the i8042 controller across accesses.

use vstd::prelude::*;

use crate::devices::i8042::{
    ControllerState, InputEvent, CMD_DISABLE_KEYBOARD, CMD_DISABLE_SECONDARY, CMD_ENABLE_KEYBOARD, CMD_ENABLE_SECONDARY, CMD_READ_KBD_CTRL, CMD_READ_KBD_INPUT, CMD_RESET_CONTROLLER, CMD_WRITE_KBD_CTRL, KBD_DISABLE, KBD_ENABLE, OFFSET_COMMAND, OFFSET_DATA, OFFSET_PORT_B, PORT_A_KEYBOARD, PORT_A_MOUSE, STATUS_KEYLOCK, STATUS_OUTPUT_BUFFER_FULL, STATUS_SYSTEM_FLAG,
};

verus! {

/// The state after `n` reads of the data port.
pub open spec fn after_data_reads(s: ControllerState, n: nat) -> ControllerState
    decreases n,
{
    if n == 0 {
        s
    } else {
        after_data_reads(s, (n - 1) as nat).after_read(OFFSET_DATA)
    }
}

/// The values that the status register takes.
proof fn lemma_status_bits()
    ensures
        0x14u8 | STATUS_OUTPUT_BUFFER_FULL == 0x15,
        0x15u8 | STATUS_OUTPUT_BUFFER_FULL == 0x15,
        0x15u8 & !STATUS_OUTPUT_BUFFER_FULL == 0x14,
        0x14u8 & !STATUS_OUTPUT_BUFFER_FULL == 0x14,
        STATUS_SYSTEM_FLAG | STATUS_KEYLOCK == 0x14,
        0x14u8 | STATUS_SYSTEM_FLAG | STATUS_KEYLOCK == 0x14,
        0x15u8 | STATUS_SYSTEM_FLAG | STATUS_KEYLOCK == 0x15,
{
    assert(0x14u8 | STATUS_OUTPUT_BUFFER_FULL == 0x15 && 0x15u8 | STATUS_OUTPUT_BUFFER_FULL == 0x15
        && 0x15u8 & !STATUS_OUTPUT_BUFFER_FULL == 0x14 && 0x14u8 & !STATUS_OUTPUT_BUFFER_FULL
        == 0x14 && STATUS_SYSTEM_FLAG | STATUS_KEYLOCK == 0x14 && 0x14u8 | STATUS_SYSTEM_FLAG
        | STATUS_KEYLOCK == 0x14 && 0x15u8 | STATUS_SYSTEM_FLAG | STATUS_KEYLOCK == 0x15)
        by (bit_vector);
}

/// Bytes that come in keep the buffer within its bound and the status register
/// true.
pub proof fn law_replies_keep_wf(s: ControllerState, bytes: Seq<u8>)
    requires
        s.wf(),
    ensures
        s.replied(bytes).wf(),
{
    lemma_status_bits();
}

/// Every write of the guest, at any port, keeps the buffer within its bound and the
/// status register true.
pub proof fn law_writes_keep_wf(s: ControllerState, offset: u64, data: u8)
    requires
        s.wf(),
    ensures
        s.after_write(offset, data).wf(),
{
    if offset == OFFSET_DATA {
        law_replies_keep_wf(s.data_settings(data), s.data_reply(data));
    } else if offset == OFFSET_COMMAND {
        lemma_status_bits();
        if data != CMD_READ_KBD_INPUT {
            law_replies_keep_wf(s.command_settings(data), s.command_reply(data));
        }
    }
}

/// Input events, however many, keep the buffer within its bound and the status
/// register true.
pub proof fn law_events_keep_wf(s: ControllerState, events: Seq<InputEvent>)
    requires
        s.wf(),
    ensures
        s.after_events(events).wf(),
    decreases events.len(),
{
    if events.len() > 0 {
        law_events_keep_wf(s, events.drop_last());
        let t = s.after_events(events.drop_last());
        law_replies_keep_wf(t, t.event_bytes(events.last()));
    }
}

/// Every read of the guest, at any port, keeps the buffer within its bound and the
/// status register true.
pub proof fn law_reads_keep_wf(s: ControllerState, offset: u64)
    requires
        s.wf(),
    ensures
        s.after_read(offset).wf(),
{
    let t = ControllerState { input: Seq::empty(), ..s };
    law_events_keep_wf(t, s.input);
    lemma_status_bits();
}

/// What can happen to a controller.
pub enum Access {
    /// The guest reads.
    Read { offset: u64 },
    /// The guest writes.
    Write { offset: u64, data: u8 },
    /// Input is put into the queue.
    Input(InputEvent),
    /// Input in the queue is turned into bytes.
    Drain,
    /// Input is turned into bytes at once.
    Event(InputEvent),
    /// Bytes are put into the output buffer.
    Bytes(Seq<u8>),
}

/// The state after a string of accesses.
pub open spec fn after_accesses(s: ControllerState, accesses: Seq<Access>) -> ControllerState
    decreases accesses.len(),
{
    if accesses.len() == 0 {
        s
    } else {
        let t = after_accesses(s, accesses.drop_last());
        match accesses.last() {
            Access::Read { offset } => t.after_read(offset),
            Access::Write { offset, data } => t.after_write(offset, data),
            Access::Input(event) => ControllerState { input: t.input.push(event), ..t },
            Access::Drain => t.drained(),
            Access::Event(event) => t.after_event(event),
            Access::Bytes(bytes) => t.replied(bytes),
        }
    }
}

/// From the moment that the controller comes up, whatever the guest does and whatever
/// input comes, queued or at once: the buffer is within its bound, and the status register is 0x15 while a
/// byte waits and 0x14 while none does.
pub proof fn law_controller_keeps_wf(accesses: Seq<Access>)
    ensures
        after_accesses(ControllerState::initial(), accesses).wf(),
    decreases accesses.len(),
{
    if accesses.len() == 0 {
        lemma_status_bits();
    } else {
        law_controller_keeps_wf(accesses.drop_last());
        let t = after_accesses(ControllerState::initial(), accesses.drop_last());
        match accesses.last() {
            Access::Read { offset } => {
                law_reads_keep_wf(t, offset);
            },
            Access::Write { offset, data } => {
                law_writes_keep_wf(t, offset, data);
            },
            Access::Input(_) => {},
            Access::Drain => {
                law_events_keep_wf(ControllerState { input: Seq::empty(), ..t }, t.input);
            },
            Access::Event(event) => {
                law_replies_keep_wf(t, t.event_bytes(event));
            },
            Access::Bytes(bytes) => {
                law_replies_keep_wf(t, bytes);
            },
        }
    }
}

/// A controller that is not near full takes the next input event in full: none of its
/// bytes is lost.
pub proof fn law_not_near_full_loses_nothing(s: ControllerState, event: InputEvent)
    requires
        !s.near_full(),
    ensures
        s.after_event(event).output == s.output + s.event_bytes(event),
{
    match event {
        InputEvent::Keyboard { key, pressed } => {
            crate::devices::keyboard_map::law_key_bytes_length(key, pressed);
        },
        InputEvent::Mouse { .. } => {},
    }
}

/// The status port reads as 0x15 while a byte waits at the data port and as 0x14 while
/// none does: the system flag and the keylock are always there. Reading it changes
/// nothing.
pub proof fn law_status_port(s: ControllerState)
    requires
        s.wf(),
    ensures
        s.read_byte(OFFSET_COMMAND) == (if s.output.len() > 0 {
            0x15u8
        } else {
            0x14u8
        }),
        s.read_byte(OFFSET_COMMAND) & STATUS_SYSTEM_FLAG == STATUS_SYSTEM_FLAG,
        s.read_byte(OFFSET_COMMAND) & STATUS_KEYLOCK == STATUS_KEYLOCK,
        s.after_read(OFFSET_COMMAND) == s,
{
    lemma_status_bits();
    assert(0x14u8 & STATUS_SYSTEM_FLAG == STATUS_SYSTEM_FLAG && 0x15u8 & STATUS_SYSTEM_FLAG
        == STATUS_SYSTEM_FLAG && 0x14u8 & STATUS_KEYLOCK == STATUS_KEYLOCK && 0x15u8
        & STATUS_KEYLOCK == STATUS_KEYLOCK) by (bit_vector);
}

/// Port B gives back what was written to it, and the write touches nothing else.
pub proof fn law_port_b_reads_back(s: ControllerState, value: u8)
    ensures
        s.after_write(OFFSET_PORT_B, value).read_byte(OFFSET_PORT_B) == value,
        s.after_write(OFFSET_PORT_B, value) == (ControllerState { port_b: value, ..s }),
        s.after_read(OFFSET_PORT_B) == s,
{
}

/// The control register gives back, through its read command, what was written
/// through its write command.
pub proof fn law_control_register_reads_back(s: ControllerState, value: u8)
    ensures
        ({
            let t = s.after_write(OFFSET_COMMAND, CMD_WRITE_KBD_CTRL).after_write(
                OFFSET_DATA,
                value,
            );
            t.control_reg == value && t.pending_command is None && t.command_reply(
                CMD_READ_KBD_CTRL,
            ) == seq![value]
        }),
{
}

/// As long as no input is pending, bytes leave the data port in the order in which
/// they came in.
pub proof fn law_data_port_is_fifo(s: ControllerState, n: nat)
    requires
        s.input.len() == 0,
        n < s.output.len(),
    ensures
        after_data_reads(s, n).read_byte(OFFSET_DATA) == s.output[n as int],
        after_data_reads(s, n).output == s.output.skip(n as int),
        after_data_reads(s, n).input.len() == 0,
    decreases n,
{
    let t = after_data_reads(s, n);
    if n > 0 {
        law_data_port_is_fifo(s, (n - 1) as nat);
        let u = after_data_reads(s, (n - 1) as nat);
        assert(u.drained() == ControllerState { input: Seq::empty(), ..u });
        assert(s.output.skip(n - 1).drop_first() =~= s.output.skip(n as int));
    } else {
        assert(s.output.skip(0) =~= s.output);
    }
    assert(t.drained() == ControllerState { input: Seq::empty(), ..t });
}

/// On an idle controller the answer to a command, all of it, is what the guest then
/// reads from the data port.
pub proof fn law_command_reply_is_read(s: ControllerState, cmd: u8, n: nat)
    requires
        s.wf(),
        s.input.len() == 0,
        s.output.len() == 0,
        n < s.command_reply(cmd).len(),
    ensures
        after_data_reads(s.after_write(OFFSET_COMMAND, cmd), n).read_byte(OFFSET_DATA)
            == s.command_reply(cmd)[n as int],
{
    let t = s.after_write(OFFSET_COMMAND, cmd);
    assert(t.output =~= s.command_reply(cmd));
    law_data_port_is_fifo(t, n);
}

/// On an idle controller the answer to a byte at the data port, all of it, is what
/// the guest then reads from there.
pub proof fn law_data_reply_is_read(s: ControllerState, data: u8, n: nat)
    requires
        s.wf(),
        s.input.len() == 0,
        s.output.len() == 0,
        n < s.data_reply(data).len(),
    ensures
        after_data_reads(s.after_write(OFFSET_DATA, data), n).read_byte(OFFSET_DATA)
            == s.data_reply(data)[n as int],
{
    let t = s.after_write(OFFSET_DATA, data);
    assert(t.output =~= s.data_reply(data));
    law_data_port_is_fifo(t, n);
}

/// On an idle controller a single input event is what the guest then reads from the
/// data port, byte by byte.
pub proof fn law_event_is_read(s: ControllerState, event: InputEvent, n: nat)
    requires
        s.output.len() == 0,
        s.input == seq![event],
        n < s.event_bytes(event).len(),
    ensures
        after_data_reads(s, n).read_byte(OFFSET_DATA) == s.event_bytes(event)[n as int],
    decreases n,
{
    let start = ControllerState { input: Seq::empty(), ..s };
    let t = s.drained();
    assert(seq![event].drop_last() =~= Seq::empty());
    assert(start.after_events(seq![event]) == start.after_event(event)) by {
        assert(start.after_events(Seq::empty()) == start);
    }
    assert(t == start.replied(s.event_bytes(event)));
    assert(t.output =~= s.event_bytes(event)) by {
        match event {
            InputEvent::Keyboard { key, pressed } => {
                crate::devices::keyboard_map::law_key_bytes_length(key, pressed);
            },
            InputEvent::Mouse { .. } => {},
        }
    }
    lemma_drained_reads(s, n);
    law_data_port_is_fifo(t, n);
}

/// Reading with input pending is reading once the input was drained.
pub(crate) proof fn lemma_drained_reads(s: ControllerState, n: nat)
    requires
        s.drained().input.len() == 0,
    ensures
        after_data_reads(s, n).read_byte(OFFSET_DATA) == after_data_reads(
            s.drained(),
            n,
        ).read_byte(OFFSET_DATA),
        after_data_reads(s, n).after_read(OFFSET_DATA) == after_data_reads(
            s.drained(),
            n,
        ).after_read(OFFSET_DATA),
    decreases n,
{
    let t = s.drained();
    assert(t.drained() =~= t) by {
        assert(ControllerState { input: Seq::empty(), ..t } =~= t);
    }
    if n > 0 {
        lemma_drained_reads(s, (n - 1) as nat);
    }
}

/// With nothing waiting and no input pending, the data port reads as 0xFF and stays
/// as it is.
pub proof fn law_empty_data_port(s: ControllerState)
    requires
        s.output.len() == 0,
        s.input.len() == 0,
    ensures
        s.read_byte(OFFSET_DATA) == 0xFF,
        s.after_read(OFFSET_DATA) == s,
        s.read_effects(OFFSET_DATA).interrupts == 0,
{
    assert(ControllerState { input: Seq::empty(), ..s } =~= s);
}

/// A device that is disabled adds nothing to the output buffer, and interrupts
/// nobody.
pub proof fn law_disabled_devices_are_silent(s: ControllerState, event: InputEvent)
    requires
        match event {
            InputEvent::Keyboard { .. } => !s.keyboard_enabled,
            InputEvent::Mouse { .. } => !s.mouse_enabled,
        },
    ensures
        s.after_event(event) == s,
        s.event_interrupts(event) == 0,
{
    assert(s.replied(Seq::empty()) =~= s);
}

/// Port A shows a device exactly while it is enabled by command: the bit of the
/// keyboard follows the keyboard's commands, the bit of the mouse follows the
/// mouse's, and neither touches the other device.
pub proof fn law_enable_disable(s: ControllerState)
    ensures
        ({
            let t = s.after_write(OFFSET_COMMAND, CMD_DISABLE_KEYBOARD);
            !t.keyboard_enabled && t.port_a & PORT_A_KEYBOARD == 0 && t.mouse_enabled
                == s.mouse_enabled && t.port_a & PORT_A_MOUSE == s.port_a & PORT_A_MOUSE
        }),
        ({
            let t = s.after_write(OFFSET_COMMAND, CMD_ENABLE_KEYBOARD);
            t.keyboard_enabled && t.port_a & PORT_A_KEYBOARD == PORT_A_KEYBOARD
                && t.mouse_enabled == s.mouse_enabled && t.port_a & PORT_A_MOUSE == s.port_a
                & PORT_A_MOUSE
        }),
        ({
            let t = s.after_write(OFFSET_COMMAND, CMD_DISABLE_SECONDARY);
            !t.mouse_enabled && t.port_a & PORT_A_MOUSE == 0 && t.keyboard_enabled
                == s.keyboard_enabled && t.port_a & PORT_A_KEYBOARD == s.port_a
                & PORT_A_KEYBOARD
        }),
        ({
            let t = s.after_write(OFFSET_COMMAND, CMD_ENABLE_SECONDARY);
            t.mouse_enabled && t.port_a & PORT_A_MOUSE == PORT_A_MOUSE && t.keyboard_enabled
                == s.keyboard_enabled && t.port_a & PORT_A_KEYBOARD == s.port_a
                & PORT_A_KEYBOARD
        }),
        s.pending_command is None ==> {
            &&& s.after_write(OFFSET_DATA, KBD_ENABLE).keyboard_enabled
            &&& s.after_write(OFFSET_DATA, KBD_ENABLE).port_a & PORT_A_KEYBOARD
                == PORT_A_KEYBOARD
            &&& !s.after_write(OFFSET_DATA, KBD_DISABLE).keyboard_enabled
            &&& s.after_write(OFFSET_DATA, KBD_DISABLE).port_a & PORT_A_KEYBOARD == 0
        },
{
    let a = s.port_a;
    assert((a & !PORT_A_KEYBOARD) & PORT_A_KEYBOARD == 0 && (a & !PORT_A_KEYBOARD) & PORT_A_MOUSE
        == a & PORT_A_MOUSE && (a | PORT_A_KEYBOARD) & PORT_A_KEYBOARD == PORT_A_KEYBOARD && (a
        | PORT_A_KEYBOARD) & PORT_A_MOUSE == a & PORT_A_MOUSE) by (bit_vector);
    assert((a & !PORT_A_MOUSE) & PORT_A_MOUSE == 0 && (a & !PORT_A_MOUSE) & PORT_A_KEYBOARD == a
        & PORT_A_KEYBOARD && (a | PORT_A_MOUSE) & PORT_A_MOUSE == PORT_A_MOUSE && (a
        | PORT_A_MOUSE) & PORT_A_KEYBOARD == a & PORT_A_KEYBOARD) by (bit_vector);
}

/// A write interrupts, once, exactly where the output buffer goes from empty to not
/// empty. The command that reads the keyboard input is left out: it takes the oldest
/// byte out of the buffer and puts it back.
pub proof fn law_writes_interrupt_on_first_byte(s: ControllerState, offset: u64, data: u8)
    requires
        !(offset == OFFSET_COMMAND && data == CMD_READ_KBD_INPUT),
    ensures
        s.write_effects(offset, data).interrupts == (if s.output.len() == 0 && s.after_write(
            offset,
            data,
        ).output.len() > 0 {
            1int
        } else {
            0
        }),
{
}

/// A reset is asked for by one command and by nothing else, and that command leaves
/// the controller as it is.
pub proof fn law_reset(s: ControllerState, offset: u64, data: u8)
    ensures
        s.write_effects(offset, data).reset == (offset == OFFSET_COMMAND && data
            == CMD_RESET_CONTROLLER),
        !s.read_effects(offset).reset,
        s.after_write(OFFSET_COMMAND, CMD_RESET_CONTROLLER) == s,
{
    assert(s.replied(Seq::empty()) =~= s);
}

/// The first byte of a mouse packet has bit 7 set, the buttons in bits 0 to 2, the
/// overflow flags in bits 3 (Y) and 4 (X) and the signs in bits 5 (Y) and 6 (X).
pub proof fn law_mouse_packet_layout(buttons: u8, dx: i16, dy: i16)
    ensures
        ({
            let flags = crate::devices::i8042::mouse_packet(buttons, dx as int, dy as int)[0];
            &&& flags & 0x80 == 0x80
            &&& flags & 0x07 == buttons & 0x07
            &&& (flags & 0x08 != 0) == !(i8::MIN <= dy <= i8::MAX)
            &&& (flags & 0x10 != 0) == !(i8::MIN <= dx <= i8::MAX)
            &&& (flags & 0x20 != 0) == (dy < 0)
            &&& (flags & 0x40 != 0) == (dx < 0)
        }),
{
    let xo = dx != crate::devices::i8042::saturate_i8(dx as int);
    let yo = dy != crate::devices::i8042::saturate_i8(dy as int);
    let xs = dx < 0;
    let ys = dy < 0;
    let flags = crate::devices::i8042::packed_flags(buttons, xo, yo, xs, ys);
    assert(flags & 0x80 == 0x80 && flags & 0x07 == buttons & 0x07 && (flags & 0x08 != 0) == yo
        && (flags & 0x10 != 0) == xo && (flags & 0x20 != 0) == ys && (flags & 0x40 != 0) == xs)
        by (bit_vector)
        requires
            flags == crate::devices::i8042::packed_flags(buttons, xo, yo, xs, ys),
    ;
}

} // verus!
