//! An i8042 PS/2 controller with a keyboard and a mouse behind it.
//!
//! The controller answers at I/O port 0x60 and the four ports above it:
//! the data port (offset 0), port B (1), the timer latch (2), the mode select
//! (3) and the command and status port (4). What it asks of the machine around it,
//! a keyboard interrupt or a reset, is handed back as [`Effects`].

use std::collections::VecDeque;
use vstd::prelude::*;

use crate::devices::keyboard_map::KeyboardMap;

verus! {

pub const OFFSET_DATA: u64 = 0;

pub const OFFSET_PORT_B: u64 = 1;

pub const OFFSET_TIMER_LATCH: u64 = 2;

pub const OFFSET_MODE_SELECT: u64 = 3;

pub const OFFSET_COMMAND: u64 = 4;

pub const CMD_READ_PORT_A: u8 = 0x20;

pub const CMD_READ_PORT_B: u8 = 0x21;

pub const CMD_WRITE_PORT_A: u8 = 0x60;

pub const CMD_DISABLE_SECONDARY: u8 = 0xA7;

pub const CMD_ENABLE_SECONDARY: u8 = 0xA8;

pub const CMD_PULSE_INTERRUPT: u8 = 0xA9;

pub const CMD_TEST_CONTROLLER: u8 = 0xAA;

pub const CMD_READ_KBD_CTRL: u8 = 0xAB;

pub const CMD_DISABLE_KEYBOARD: u8 = 0xAD;

pub const CMD_ENABLE_KEYBOARD: u8 = 0xAE;

pub const CMD_WRITE_KBD_CTRL: u8 = 0xB0;

pub const CMD_READ_KBD_INPUT: u8 = 0xD0;

pub const CMD_TEST_KEYBOARD: u8 = 0xD1;

pub const CMD_WRITE_KBD_OUTPUT: u8 = 0xD2;

pub const CMD_WRITE_SECONDARY_OUTPUT: u8 = 0xD3;

pub const CMD_SELF_TEST: u8 = 0xF0;

pub const CMD_RESET_CONTROLLER: u8 = 0xFE;

/// Keyboard command: set the LEDs.
pub const KBD_SET_LED: u8 = 0xED;

/// Keyboard command: report the keyboard's identity.
pub const KBD_GET_ID: u8 = 0xF2;

/// Keyboard command: start to send key events.
pub const KBD_ENABLE: u8 = 0xF4;

/// Keyboard command: stop sending key events.
pub const KBD_DISABLE: u8 = 0xF5;

/// Acknowledgement of a command.
pub const REPLY_ACK: u8 = 0xFA;

/// Outcome of a self test that passed.
pub const REPLY_TEST_PASSED: u8 = 0x55;

/// Bit of the configuration register that turns scan code translation on.
pub const CTR_XLATE: u8 = 0x40;

pub const STATUS_OUTPUT_BUFFER_FULL: u8 = 0x01;

pub const STATUS_SYSTEM_FLAG: u8 = 0x04;

pub const STATUS_KEYLOCK: u8 = 0x10;

/// Bit of port A that shows the keyboard.
pub const PORT_A_KEYBOARD: u8 = 0x01;

/// Bit of port A that shows the mouse.
pub const PORT_A_MOUSE: u8 = 0x10;

/// Bytes that the output buffer holds at most.
pub const MAX_DATA_BUFFER: usize = 32;

/// Input that can be forwarded to the guest.
#[derive(Debug, Clone, Copy)]
pub enum InputEvent {
    /// A key, by its keysym, and whether it went down.
    Keyboard { key: u32, pressed: bool },
    /// The mouse buttons, and how far the mouse moved.
    Mouse { buttons: u8, dx: i16, dy: i16 },
}

/// What an access to the controller asks of the machine around it.
#[derive(Debug, Clone, Copy, PartialEq, Eq, Structural)]
pub struct Effects {
    /// How often the keyboard interrupt is to be triggered.
    pub interrupts: u8,
    /// Whether the guest asked for a reset. The access is complete only when the
    /// [`Reset`](crate::devices::reset::Reset) is.
    pub reset: bool,
}

/// The controller.
#[derive(Debug)]
pub struct I8042Device {
    /// Status register.
    pub status: u8,
    /// Bytes that wait for the guest at the data port.
    pub output_buffer: VecDeque<u8>,
    /// Last byte written to the data port that no command took.
    pub input_buffer: Option<u8>,
    /// Port A register: bit 0 shows the keyboard, bit 4 the mouse.
    pub port_a: u8,
    /// Port B register.
    pub port_b: u8,
    /// Configuration register.
    pub ctr: u8,
    /// Control register; bit 6 is the keylock.
    pub control_reg: u8,
    pub keyboard_enabled: bool,
    pub mouse_enabled: bool,
    /// Command that takes the next byte written to the data port.
    pub pending_command: Option<u8>,
    /// Input events that have not been turned into bytes yet, oldest first.
    pub input_channel: VecDeque<InputEvent>,
}

/// The state of the controller as the contracts speak of it.
#[verifier::ext_equal]
pub struct ControllerState {
    pub status: u8,
    pub output: Seq<u8>,
    pub input_buffer: Option<u8>,
    pub port_a: u8,
    pub port_b: u8,
    pub ctr: u8,
    pub control_reg: u8,
    pub keyboard_enabled: bool,
    pub mouse_enabled: bool,
    pub pending_command: Option<u8>,
    pub input: Seq<InputEvent>,
}

impl View for I8042Device {
    type V = ControllerState;

    open spec fn view(&self) -> ControllerState {
        ControllerState {
            status: self.status,
            output: self.output_buffer@,
            input_buffer: self.input_buffer,
            port_a: self.port_a,
            port_b: self.port_b,
            ctr: self.ctr,
            control_reg: self.control_reg,
            keyboard_enabled: self.keyboard_enabled,
            mouse_enabled: self.mouse_enabled,
            pending_command: self.pending_command,
            input: self.input_channel@,
        }
    }
}

/// `buffer` after `bytes` came in: those that still fit are appended, the others
/// are lost.
pub open spec fn enqueue(buffer: Seq<u8>, bytes: Seq<u8>) -> Seq<u8> {
    let room: int = if buffer.len() < MAX_DATA_BUFFER {
        MAX_DATA_BUFFER - buffer.len()
    } else {
        0
    };
    if bytes.len() <= room {
        buffer + bytes
    } else {
        buffer + bytes.take(room)
    }
}

/// `v` brought into the range of an `i8`.
pub open spec fn saturate_i8(v: int) -> int {
    if v > i8::MAX {
        i8::MAX as int
    } else if v < i8::MIN {
        i8::MIN as int
    } else {
        v
    }
}

/// Two's complement byte of a number in the range of an `i8`.
pub open spec fn twos_complement(v: int) -> u8 {
    if v < 0 {
        (v + 256) as u8
    } else {
        v as u8
    }
}

/// First byte of a mouse packet: buttons in bits 0 to 2, Y overflow in bit 3, X
/// overflow in bit 4, Y sign in bit 5, X sign in bit 6, and bit 7 always set.
pub open spec fn mouse_flags(buttons: u8, dx: int, dy: int) -> u8 {
    packed_flags(buttons, dx != saturate_i8(dx), dy != saturate_i8(dy), dx < 0, dy < 0)
}

/// The three bytes that report a movement of the mouse.
pub open spec fn mouse_packet(buttons: u8, dx: int, dy: int) -> Seq<u8> {
    seq![
        mouse_flags(buttons, dx, dy),
        twos_complement(saturate_i8(dx)),
        twos_complement(saturate_i8(dy)),
    ]
}

impl ControllerState {
    /// The output buffer is within its bound. The status register shows the system flag
    /// and the keylock, in its lowest bit whether the buffer holds anything, and nothing
    /// else.
    pub open spec fn wf(self) -> bool {
        &&& self.output.len() <= MAX_DATA_BUFFER
        &&& self.status == if self.output.len() > 0 {
            0x15u8
        } else {
            0x14u8
        }
    }

    /// Fewer than four bytes still fit into the output buffer.
    pub open spec fn near_full(self) -> bool {
        MAX_DATA_BUFFER - self.output.len() < 4
    }

    /// A controller as it comes up.
    pub open spec fn initial() -> ControllerState {
        ControllerState {
            status: STATUS_SYSTEM_FLAG | STATUS_KEYLOCK,
            output: Seq::empty(),
            input_buffer: None,
            port_a: 0x00,
            port_b: 0x23,
            ctr: CTR_XLATE,
            control_reg: 0x00,
            keyboard_enabled: true,
            mouse_enabled: true,
            pending_command: None,
            input: Seq::empty(),
        }
    }

    /// The state after `bytes` came into the output buffer.
    pub open spec fn replied(self, bytes: Seq<u8>) -> ControllerState {
        let output = enqueue(self.output, bytes);
        ControllerState {
            output,
            status: if output.len() > self.output.len() {
                self.status | STATUS_OUTPUT_BUFFER_FULL
            } else {
                self.status
            },
            ..self
        }
    }

    /// Interrupts that go with `bytes`: one, where the buffer held nothing before.
    pub open spec fn reply_interrupts(self, bytes: Seq<u8>) -> int {
        if self.output.len() == 0 && bytes.len() > 0 {
            1
        } else {
            0
        }
    }

    pub open spec fn with_keyboard(self, enabled: bool) -> ControllerState {
        ControllerState {
            keyboard_enabled: enabled,
            port_a: if enabled {
                self.port_a | PORT_A_KEYBOARD
            } else {
                self.port_a & !PORT_A_KEYBOARD
            },
            ..self
        }
    }

    pub open spec fn with_mouse(self, enabled: bool) -> ControllerState {
        ControllerState {
            mouse_enabled: enabled,
            port_a: if enabled {
                self.port_a | PORT_A_MOUSE
            } else {
                self.port_a & !PORT_A_MOUSE
            },
            ..self
        }
    }

    /// Whether the next byte at the data port belongs to `cmd`.
    pub open spec fn takes_data(cmd: u8) -> bool {
        ||| cmd == CMD_WRITE_PORT_A
        ||| cmd == CMD_WRITE_KBD_OUTPUT
        ||| cmd == CMD_WRITE_SECONDARY_OUTPUT
        ||| cmd == CMD_WRITE_KBD_CTRL
    }

    /// Bytes with which the controller answers `cmd`.
    pub open spec fn command_reply(self, cmd: u8) -> Seq<u8> {
        if cmd == CMD_TEST_CONTROLLER || cmd == CMD_SELF_TEST {
            seq![REPLY_TEST_PASSED]
        } else if cmd == CMD_TEST_KEYBOARD {
            seq![REPLY_ACK, REPLY_TEST_PASSED]
        } else if cmd == CMD_READ_PORT_A {
            seq![self.ctr]
        } else if cmd == CMD_READ_PORT_B {
            seq![self.port_b]
        } else if cmd == CMD_READ_KBD_CTRL {
            seq![self.control_reg]
        } else if cmd == CMD_READ_KBD_INPUT {
            seq![
                if self.output.len() > 0 {
                    self.output[0]
                } else {
                    0x00
                },
            ]
        } else if Self::takes_data(cmd) || cmd == CMD_PULSE_INTERRUPT || cmd
            == CMD_DISABLE_KEYBOARD || cmd == CMD_ENABLE_KEYBOARD || cmd == CMD_DISABLE_SECONDARY
            || cmd == CMD_ENABLE_SECONDARY {
            seq![REPLY_ACK]
        } else {
            Seq::empty()
        }
    }

    /// What `cmd` changes before the answer goes out. Reading the keyboard input
    /// takes the oldest byte out of the buffer, to put it in again as the answer.
    pub open spec fn command_settings(self, cmd: u8) -> ControllerState {
        if cmd == CMD_DISABLE_KEYBOARD {
            self.with_keyboard(false)
        } else if cmd == CMD_ENABLE_KEYBOARD {
            self.with_keyboard(true)
        } else if cmd == CMD_DISABLE_SECONDARY {
            self.with_mouse(false)
        } else if cmd == CMD_ENABLE_SECONDARY {
            self.with_mouse(true)
        } else if cmd == CMD_READ_KBD_INPUT && self.output.len() > 0 {
            ControllerState { output: self.output.drop_first(), ..self }
        } else if Self::takes_data(cmd) {
            ControllerState { pending_command: Some(cmd), ..self }
        } else {
            self
        }
    }

    /// The state after `cmd` was written to the command port.
    pub open spec fn after_command(self, cmd: u8) -> ControllerState {
        self.command_settings(cmd).replied(self.command_reply(cmd))
    }

    pub open spec fn command_effects(self, cmd: u8) -> Effects {
        Effects {
            interrupts: self.command_settings(cmd).reply_interrupts(
                self.command_reply(cmd),
            ) as u8,
            reset: cmd == CMD_RESET_CONTROLLER,
        }
    }

    /// Bytes with which the keyboard answers `data`: its identity, or an
    /// acknowledgement. A keyboard that is disabled listens to [`KBD_ENABLE`] and
    /// [`KBD_DISABLE`] alone; one that is addressed by [`CMD_WRITE_KBD_OUTPUT`]
    /// tells its identity in any case, and answers nothing else.
    pub open spec fn data_reply(self, data: u8) -> Seq<u8> {
        let identity = seq![REPLY_ACK, 0xABu8, 0x83u8];
        match self.pending_command {
            Some(cmd) => if cmd == CMD_WRITE_KBD_OUTPUT && data == KBD_GET_ID {
                identity
            } else {
                Seq::empty()
            },
            None => if data == KBD_GET_ID && self.keyboard_enabled {
                identity
            } else if data == KBD_SET_LED && self.keyboard_enabled {
                seq![REPLY_ACK]
            } else if data == KBD_ENABLE || data == KBD_DISABLE {
                seq![REPLY_ACK]
            } else {
                Seq::empty()
            },
        }
    }

    /// What `data` changes before the answer goes out: the register that the pending
    /// command names, the keyboard, or the input buffer for a byte that nobody took.
    pub open spec fn data_settings(self, data: u8) -> ControllerState {
        match self.pending_command {
            Some(cmd) => ControllerState {
                pending_command: None,
                port_a: if cmd == CMD_WRITE_PORT_A {
                    data
                } else {
                    self.port_a
                },
                control_reg: if cmd == CMD_WRITE_KBD_CTRL {
                    data
                } else {
                    self.control_reg
                },
                ..self
            },
            None => if data == KBD_ENABLE {
                self.with_keyboard(true)
            } else if data == KBD_DISABLE {
                self.with_keyboard(false)
            } else if self.data_reply(data).len() == 0 {
                ControllerState { input_buffer: Some(data), ..self }
            } else {
                self
            },
        }
    }

    /// The state after `data` was written to the data port.
    pub open spec fn after_data(self, data: u8) -> ControllerState {
        self.data_settings(data).replied(self.data_reply(data))
    }

    pub open spec fn data_effects(self, data: u8) -> Effects {
        Effects {
            interrupts: self.reply_interrupts(self.data_reply(data)) as u8,
            reset: false,
        }
    }

    /// Bytes that an input event is worth; none where its source is disabled.
    pub open spec fn event_bytes(self, event: InputEvent) -> Seq<u8> {
        match event {
            InputEvent::Keyboard { key, pressed } => if self.keyboard_enabled {
                crate::devices::keyboard_map::key_bytes(key, pressed)
            } else {
                Seq::empty()
            },
            InputEvent::Mouse { buttons, dx, dy } => if self.mouse_enabled {
                mouse_packet(buttons, dx as int, dy as int)
            } else {
                Seq::empty()
            },
        }
    }

    /// The state after an input event came in.
    pub open spec fn after_event(self, event: InputEvent) -> ControllerState {
        self.replied(self.event_bytes(event))
    }

    /// Interrupts that an input event raises: the mouse raises one where the buffer
    /// held nothing, the keyboard none.
    pub open spec fn event_interrupts(self, event: InputEvent) -> int {
        match event {
            InputEvent::Keyboard { .. } => 0,
            InputEvent::Mouse { .. } => self.reply_interrupts(self.event_bytes(event)),
        }
    }

    /// The state after `events` came in, in order.
    pub open spec fn after_events(self, events: Seq<InputEvent>) -> ControllerState
        decreases events.len(),
    {
        if events.len() == 0 {
            self
        } else {
            self.after_events(events.drop_last()).after_event(events.last())
        }
    }

    pub open spec fn events_interrupts(self, events: Seq<InputEvent>) -> int
        decreases events.len(),
    {
        if events.len() == 0 {
            0
        } else {
            self.events_interrupts(events.drop_last()) + self.after_events(
                events.drop_last(),
            ).event_interrupts(events.last())
        }
    }

    /// The state after all pending input was turned into bytes.
    pub open spec fn drained(self) -> ControllerState {
        ControllerState { input: Seq::empty(), ..self }.after_events(self.input)
    }

    pub open spec fn drain_interrupts(self) -> int {
        ControllerState { input: Seq::empty(), ..self }.events_interrupts(self.input)
    }

    /// The state without its oldest byte.
    pub open spec fn taken(self) -> ControllerState {
        if self.output.len() == 0 {
            self
        } else {
            ControllerState {
                output: self.output.drop_first(),
                status: if self.output.len() == 1 {
                    self.status & !STATUS_OUTPUT_BUFFER_FULL
                } else {
                    self.status
                },
                ..self
            }
        }
    }

    /// The byte that a read at `offset` gives.
    pub open spec fn read_byte(self, offset: u64) -> u8 {
        if offset == OFFSET_DATA {
            if self.drained().output.len() > 0 {
                self.drained().output[0]
            } else {
                0xFF
            }
        } else if offset == OFFSET_PORT_B {
            self.port_b
        } else if offset == OFFSET_COMMAND {
            self.status | STATUS_SYSTEM_FLAG | STATUS_KEYLOCK
        } else {
            0x00
        }
    }

    /// The state after a read at `offset`.
    pub open spec fn after_read(self, offset: u64) -> ControllerState {
        if offset == OFFSET_DATA {
            self.drained().taken()
        } else {
            self
        }
    }

    /// Reading the data port interrupts again as long as bytes are left.
    pub open spec fn read_effects(self, offset: u64) -> Effects {
        Effects {
            interrupts: if offset == OFFSET_DATA {
                (self.drain_interrupts() + if self.drained().output.len() > 1 {
                    1int
                } else {
                    0
                }) as u8
            } else {
                0
            },
            reset: false,
        }
    }

    /// The state after `data` was written at `offset`.
    pub open spec fn after_write(self, offset: u64, data: u8) -> ControllerState {
        if offset == OFFSET_DATA {
            self.after_data(data)
        } else if offset == OFFSET_COMMAND {
            self.after_command(data)
        } else if offset == OFFSET_PORT_B {
            ControllerState { port_b: data, ..self }
        } else {
            self
        }
    }

    pub open spec fn write_effects(self, offset: u64, data: u8) -> Effects {
        if offset == OFFSET_DATA {
            self.data_effects(data)
        } else if offset == OFFSET_COMMAND {
            self.command_effects(data)
        } else {
            Effects { interrupts: 0, reset: false }
        }
    }
}

/// Clamps `v` to the range of an `i8` and tells whether it lay outside.
pub fn clamp_to_i8(v: i16) -> (clamped: (i8, bool))
    ensures
        clamped.0 == saturate_i8(v as int),
        clamped.1 == !(i8::MIN <= v <= i8::MAX),
        v > 127 ==> clamped == (127i8, true),
        v < -128 ==> clamped == (-128i8, true),
        -128 <= v <= 127 ==> clamped.0 == v && !clamped.1,
{
    if v > 127 {
        (127, true)
    } else if v < -128 {
        (-128, true)
    } else {
        (v as i8, false)
    }
}

/// Bytes that come in one after the other come in as if together.
pub(crate) proof fn lemma_replied_concat(s: ControllerState, first: Seq<u8>, second: Seq<u8>)
    ensures
        s.replied(first).replied(second) == s.replied(first + second),
{
    let st = s.status;
    assert((st | STATUS_OUTPUT_BUFFER_FULL) | STATUS_OUTPUT_BUFFER_FULL == st
        | STATUS_OUTPUT_BUFFER_FULL) by (bit_vector);
    assert(enqueue(enqueue(s.output, first), second) =~= enqueue(s.output, first + second));
}

/// The first byte of a mouse packet, put together from its parts.
pub open spec fn packed_flags(buttons: u8, xo: bool, yo: bool, xs: bool, ys: bool) -> u8 {
    0x80u8 | (buttons & 0x07) | (if xo {
        0x10u8
    } else {
        0
    }) | (if yo {
        0x08u8
    } else {
        0
    }) | (if xs {
        0x40u8
    } else {
        0
    }) | (if ys {
        0x20u8
    } else {
        0
    })
}

/// The first byte of a mouse packet, as it is put together step by step.
spec fn assembled_flags(buttons: u8, x: u8, y: u8, xo: bool, yo: bool) -> u8 {
    let b0: u8 = 0x80 | (buttons & 0x07);
    let b1: u8 = if xo {
        b0 | 0x10
    } else {
        b0
    };
    let b2: u8 = if yo {
        b1 | 0x08
    } else {
        b1
    };
    let b3: u8 = b2 | (((x >> 7u8) & 0x01) << 6u8);
    b3 | (((y >> 7u8) & 0x01) << 5u8)
}

/// Putting the first byte of a mouse packet together step by step gives all its parts.
proof fn lemma_mouse_flags(b: u8, x: i8, y: i8, xo: bool, yo: bool)
    ensures
        assembled_flags(b, x as u8, y as u8, xo, yo) == packed_flags(b, xo, yo, x < 0, y < 0),
        x as u8 == twos_complement(x as int),
        y as u8 == twos_complement(y as int),
{
    assert(assembled_flags(b, x as u8, y as u8, xo, yo) == packed_flags(b, xo, yo, x < 0, y < 0))
        by (bit_vector);
    assert(x < 0 ==> x as u8 == x + 256) by (bit_vector);
    assert(y < 0 ==> y as u8 == y + 256) by (bit_vector);
}

/// Draining interrupts at most once, and not at all where bytes were waiting.
proof fn lemma_events_interrupts(s: ControllerState, events: Seq<InputEvent>)
    ensures
        s.after_events(events).output.len() >= s.output.len(),
        0 <= s.events_interrupts(events) <= 1,
        s.output.len() > 0 ==> s.events_interrupts(events) == 0,
        s.events_interrupts(events) == 1 ==> s.after_events(events).output.len() > 0,
    decreases events.len(),
{
    if events.len() > 0 {
        lemma_events_interrupts(s, events.drop_last());
    }
}

impl I8042Device {
    /// A controller as it comes up: both devices enabled, translation on, nothing in
    /// its buffers.
    pub fn new() -> (device: I8042Device)
        ensures
            device@ == ControllerState::initial(),
            device@.wf(),
            device.status == 0x14,
            device.output_buffer@.len() == 0,
            device.input_buffer is None,
            device.port_a == 0,
            device.port_b == 0x23,
            device.ctr == 0x40,
            device.control_reg == 0,
            device.keyboard_enabled,
            device.mouse_enabled,
            device.pending_command is None,
            device.input_channel@.len() == 0,
    {
        assert(0x04u8 | 0x10u8 == 0x14) by (bit_vector);
        I8042Device {
            status: STATUS_SYSTEM_FLAG | STATUS_KEYLOCK,
            output_buffer: VecDeque::new(),
            input_buffer: None,
            port_a: 0x00,
            port_b: 0x23,
            ctr: CTR_XLATE,
            control_reg: 0x00,
            keyboard_enabled: true,
            mouse_enabled: true,
            pending_command: None,
            input_channel: VecDeque::new(),
        }
    }

    /// Whether fewer than four bytes still fit into the output buffer, so that a
    /// source of events can back off before any is lost.
    pub fn output_buffer_near_full(&self) -> (near_full: bool)
        ensures
            near_full == self@.near_full(),
            near_full == (self@.output.len() > 28),
    {
        self.output_buffer.len() > MAX_DATA_BUFFER - 4
    }

    /// Puts a byte into the output buffer, where it fits. The result tells whether
    /// the interrupt is to be triggered: the buffer held nothing before.
    pub fn push_output(&mut self, byte: u8) -> (interrupt: bool)
        ensures
            final(self)@ == old(self)@.replied(seq![byte]),
            interrupt == (old(self)@.reply_interrupts(seq![byte]) == 1),
    {
        let count: usize = self.output_buffer.len();
        if count < MAX_DATA_BUFFER {
            self.output_buffer.push_back(byte);
            self.status = self.status | STATUS_OUTPUT_BUFFER_FULL;
            assert(self.output_buffer@ =~= old(self).output_buffer@ + seq![byte]);
            count == 0
        } else {
            assert(old(self).output_buffer@ + seq![byte].take(0) =~= old(self).output_buffer@);
            false
        }
    }

    /// Puts bytes into the output buffer, as far as they fit, without an interrupt.
    pub fn push_output_bytes_no_irq(&mut self, bytes: &[u8])
        ensures
            final(self)@ == old(self)@.replied(bytes@),
    {
        assert(old(self)@.replied(bytes@.take(0)) =~= old(self)@);
        let mut i: usize = 0;
        while i < bytes.len()
            invariant
                0 <= i <= bytes@.len(),
                self@ == old(self)@.replied(bytes@.take(i as int)),
            decreases bytes@.len() - i,
        {
            proof {
                lemma_replied_concat(old(self)@, bytes@.take(i as int), seq![bytes@[i as int]]);
                assert(bytes@.take(i as int) + seq![bytes@[i as int]] =~= bytes@.take(i + 1));
            }
            let _ = self.push_output(bytes[i]);
            i = i + 1;
        }
        assert(bytes@.take(bytes@.len() as int) =~= bytes@);
    }

    /// Turns a key event into scan codes. The result tells whether any were added
    /// to the output buffer.
    pub fn process_keyboard_event(&mut self, key: u32, pressed: bool) -> (added: bool)
        ensures
            final(self)@ == old(self)@.after_event(InputEvent::Keyboard { key, pressed }),
            added == (final(self)@.output.len() > old(self)@.output.len()),
    {
        if !self.keyboard_enabled {
            assert(old(self)@.replied(Seq::empty()) =~= old(self)@);
            return false;
        }
        let codes: Vec<u8> = KeyboardMap::scan_codes(key, pressed);
        let before: usize = self.output_buffer.len();
        self.push_output_bytes_no_irq(codes.as_slice());
        self.output_buffer.len() > before
    }

    /// Turns a mouse event into a packet of three bytes. The result tells whether
    /// the interrupt is to be triggered.
    pub fn process_mouse_event(&mut self, buttons: u8, dx: i16, dy: i16) -> (interrupt: bool)
        ensures
            final(self)@ == old(self)@.after_event(InputEvent::Mouse { buttons, dx, dy }),
            interrupt == (old(self)@.event_interrupts(InputEvent::Mouse { buttons, dx, dy })
                == 1),
    {
        if !self.mouse_enabled {
            assert(old(self)@.replied(Seq::empty()) =~= old(self)@);
            return false;
        }
        let (x, x_overflow) = clamp_to_i8(dx);
        let (y, y_overflow) = clamp_to_i8(dy);
        let mut flags: u8 = 0x80 | (buttons & 0x07);
        if x_overflow {
            flags = flags | 0x10;
        }
        if y_overflow {
            flags = flags | 0x08;
        }
        flags = flags | ((((x as u8) >> 7u8) & 0x01) << 6u8);
        flags = flags | ((((y as u8) >> 7u8) & 0x01) << 5u8);
        proof {
            lemma_mouse_flags(buttons, x, y, x_overflow, y_overflow);
            lemma_replied_concat(old(self)@, seq![flags], seq![x as u8]);
            lemma_replied_concat(old(self)@, seq![flags] + seq![x as u8], seq![y as u8]);
            assert(seq![flags] + seq![x as u8] + seq![y as u8] =~= mouse_packet(
                buttons,
                dx as int,
                dy as int,
            ));
        }
        let interrupt = self.push_output(flags);
        let _ = self.push_output(x as u8);
        let _ = self.push_output(y as u8);
        interrupt
    }

    /// Turns all pending input into bytes. The result is the number of interrupts to
    /// be triggered.
    pub fn drain_input_channel(&mut self) -> (interrupts: u8)
        ensures
            final(self)@ == old(self)@.drained(),
            interrupts == old(self)@.drain_interrupts(),
            interrupts <= 1,
    {
        let ghost start = ControllerState { input: Seq::empty(), ..old(self)@ };
        let ghost events = old(self)@.input;
        let mut interrupts: u8 = 0;
        let ghost mut done: int = 0;
        assert(events.take(0) =~= Seq::<InputEvent>::empty());
        loop
            invariant
                start == (ControllerState { input: Seq::empty(), ..old(self)@ }),
                events == old(self)@.input,
                0 <= done <= events.len(),
                self@ == (ControllerState {
                    input: events.skip(done),
                    ..start.after_events(events.take(done))
                }),
                interrupts == start.events_interrupts(events.take(done)),
                start.after_events(events.take(done)).input == Seq::<InputEvent>::empty(),
            ensures
                done == events.len(),
            decreases events.len() - done,
        {
            match self.input_channel.pop_front() {
                None => {
                    break;
                },
                Some(event) => {
                    proof {
                        lemma_events_interrupts(start, events.take(done + 1));
                        assert(events.take(done + 1).drop_last() =~= events.take(done));
                        assert(events.skip(done).drop_first() =~= events.skip(done + 1));
                    }
                    match event {
                        InputEvent::Keyboard { key, pressed } => {
                            let _ = self.process_keyboard_event(key, pressed);
                        },
                        InputEvent::Mouse { buttons, dx, dy } => {
                            if self.process_mouse_event(buttons, dx, dy) {
                                interrupts = interrupts + 1;
                            }
                        },
                    }
                    proof {
                        done = done + 1;
                    }
                },
            }
        }
        proof {
            assert(events.take(events.len() as int) =~= events);
            lemma_events_interrupts(start, events);
        }
        interrupts
    }

    /// Puts up to three bytes into the output buffer. The result is the number of
    /// interrupts to be triggered.
    fn reply(&mut self, bytes: &[u8]) -> (interrupts: u8)
        ensures
            final(self)@ == old(self)@.replied(bytes@),
            interrupts == old(self)@.reply_interrupts(bytes@),
    {
        let first: bool = self.output_buffer.len() == 0 && bytes.len() > 0;
        self.push_output_bytes_no_irq(bytes);
        if first {
            1
        } else {
            0
        }
    }

    /// Turns the keyboard on or off.
    fn set_keyboard(&mut self, enabled: bool)
        ensures
            final(self)@ == old(self)@.with_keyboard(enabled),
    {
        self.keyboard_enabled = enabled;
        if enabled {
            self.port_a = self.port_a | PORT_A_KEYBOARD;
        } else {
            self.port_a = self.port_a & !PORT_A_KEYBOARD;
        }
    }

    /// Turns the mouse on or off.
    fn set_mouse(&mut self, enabled: bool)
        ensures
            final(self)@ == old(self)@.with_mouse(enabled),
    {
        self.mouse_enabled = enabled;
        if enabled {
            self.port_a = self.port_a | PORT_A_MOUSE;
        } else {
            self.port_a = self.port_a & !PORT_A_MOUSE;
        }
    }

    /// Carries out a command written to the command port.
    pub fn handle_command(&mut self, cmd: u8) -> (effects: Effects)
        ensures
            final(self)@ == old(self)@.after_command(cmd),
            effects == old(self)@.command_effects(cmd),
    {
        assert(forall|s: ControllerState| #[trigger] s.replied(Seq::empty()) =~= s);
        let mut effects = Effects { interrupts: 0, reset: false };
        match cmd {
            CMD_RESET_CONTROLLER => {
                effects.reset = true;
            },
            CMD_TEST_CONTROLLER => {
                effects.interrupts = self.reply(&[REPLY_TEST_PASSED]);
            },
            CMD_SELF_TEST => {
                effects.interrupts = self.reply(&[REPLY_TEST_PASSED]);
            },
            CMD_DISABLE_KEYBOARD => {
                self.set_keyboard(false);
                effects.interrupts = self.reply(&[REPLY_ACK]);
            },
            CMD_ENABLE_KEYBOARD => {
                self.set_keyboard(true);
                effects.interrupts = self.reply(&[REPLY_ACK]);
            },
            CMD_DISABLE_SECONDARY => {
                self.set_mouse(false);
                effects.interrupts = self.reply(&[REPLY_ACK]);
            },
            CMD_ENABLE_SECONDARY => {
                self.set_mouse(true);
                effects.interrupts = self.reply(&[REPLY_ACK]);
            },
            CMD_TEST_KEYBOARD => {
                effects.interrupts = self.reply(&[REPLY_ACK, REPLY_TEST_PASSED]);
            },
            CMD_READ_PORT_A => {
                let value: u8 = self.ctr;
                effects.interrupts = self.reply(&[value]);
            },
            CMD_PULSE_INTERRUPT => {
                effects.interrupts = self.reply(&[REPLY_ACK]);
            },
            CMD_READ_PORT_B => {
                let value: u8 = self.port_b;
                effects.interrupts = self.reply(&[value]);
            },
            CMD_READ_KBD_INPUT => {
                let value: u8 = match self.output_buffer.pop_front() {
                    Some(byte) => byte,
                    None => 0x00,
                };
                effects.interrupts = self.reply(&[value]);
            },
            CMD_READ_KBD_CTRL => {
                let value: u8 = self.control_reg;
                effects.interrupts = self.reply(&[value]);
            },
            CMD_WRITE_PORT_A => {
                self.pending_command = Some(cmd);
                effects.interrupts = self.reply(&[REPLY_ACK]);
            },
            CMD_WRITE_KBD_OUTPUT => {
                self.pending_command = Some(cmd);
                effects.interrupts = self.reply(&[REPLY_ACK]);
            },
            CMD_WRITE_SECONDARY_OUTPUT => {
                self.pending_command = Some(cmd);
                effects.interrupts = self.reply(&[REPLY_ACK]);
            },
            CMD_WRITE_KBD_CTRL => {
                self.pending_command = Some(cmd);
                effects.interrupts = self.reply(&[REPLY_ACK]);
            },
            _ => {},
        }
        effects
    }

    /// Takes a byte written to the data port.
    pub fn handle_data_write(&mut self, data: u8) -> (effects: Effects)
        ensures
            final(self)@ == old(self)@.after_data(data),
            effects == old(self)@.data_effects(data),
    {
        assert(forall|s: ControllerState| #[trigger] s.replied(Seq::empty()) =~= s);
        let mut effects = Effects { interrupts: 0, reset: false };
        match self.pending_command {
            Some(cmd) => {
                self.pending_command = None;
                match cmd {
                    CMD_WRITE_KBD_OUTPUT => {
                        if data == KBD_GET_ID {
                            effects.interrupts = self.reply(&[REPLY_ACK, 0xAB, 0x83]);
                        }
                    },
                    CMD_WRITE_PORT_A => {
                        self.port_a = data;
                    },
                    CMD_WRITE_KBD_CTRL => {
                        self.control_reg = data;
                    },
                    _ => {},
                }
            },
            None => {
                if data == KBD_GET_ID && self.keyboard_enabled {
                    effects.interrupts = self.reply(&[REPLY_ACK, 0xAB, 0x83]);
                } else if data == KBD_SET_LED && self.keyboard_enabled {
                    effects.interrupts = self.reply(&[REPLY_ACK]);
                } else if data == KBD_ENABLE {
                    self.set_keyboard(true);
                    effects.interrupts = self.reply(&[REPLY_ACK]);
                } else if data == KBD_DISABLE {
                    self.set_keyboard(false);
                    effects.interrupts = self.reply(&[REPLY_ACK]);
                } else {
                    self.input_buffer = Some(data);
                }
            },
        }
        effects
    }

    /// A read of the guest at `offset` from the first port. Only reads of one byte
    /// are served; `data` keeps what it holds on others.
    pub fn read(&mut self, _base: u64, offset: u64, data: &mut [u8]) -> (effects: Effects)
        ensures
            old(data)@.len() == 1 ==> {
                &&& final(self)@ == old(self)@.after_read(offset)
                &&& final(data)@ == seq![old(self)@.read_byte(offset)]
                &&& effects == old(self)@.read_effects(offset)
            },
            old(data)@.len() != 1 ==> {
                &&& final(self)@ == old(self)@
                &&& final(data)@ == old(data)@
                &&& effects == (Effects { interrupts: 0, reset: false })
            },
    {
        let mut effects = Effects { interrupts: 0, reset: false };
        if data.len() != 1 {
            return effects;
        }
        match offset {
            OFFSET_DATA => {
                effects.interrupts = self.drain_input_channel();
                match self.output_buffer.pop_front() {
                    Some(byte) => {
                        data[0] = byte;
                        if self.output_buffer.len() == 0 {
                            self.status = self.status & !STATUS_OUTPUT_BUFFER_FULL;
                        } else {
                            effects.interrupts = effects.interrupts + 1;
                        }
                    },
                    None => {
                        data[0] = 0xFF;
                    },
                }
            },
            OFFSET_PORT_B => {
                data[0] = self.port_b;
            },
            OFFSET_COMMAND => {
                data[0] = self.status | STATUS_SYSTEM_FLAG | STATUS_KEYLOCK;
            },
            _ => {
                data[0] = 0x00;
            },
        }
        effects
    }

    /// A write of the guest at `offset` from the first port. Only writes of one byte
    /// are served.
    pub fn write(&mut self, _base: u64, offset: u64, data: &[u8]) -> (effects: Effects)
        ensures
            data@.len() == 1 ==> {
                &&& final(self)@ == old(self)@.after_write(offset, data@[0])
                &&& effects == old(self)@.write_effects(offset, data@[0])
            },
            data@.len() != 1 ==> {
                &&& final(self)@ == old(self)@
                &&& effects == (Effects { interrupts: 0, reset: false })
            },
    {
        if data.len() != 1 {
            return Effects { interrupts: 0, reset: false };
        }
        match offset {
            OFFSET_DATA => self.handle_data_write(data[0]),
            OFFSET_COMMAND => self.handle_command(data[0]),
            OFFSET_PORT_B => {
                self.port_b = data[0];
                Effects { interrupts: 0, reset: false }
            },
            _ => Effects { interrupts: 0, reset: false },
        }
    }
}

} // verus!
