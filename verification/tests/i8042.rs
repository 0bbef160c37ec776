use cloud_vmm::devices::i8042::{
    clamp_to_i8, Effects, I8042Device, InputEvent, CMD_DISABLE_KEYBOARD, CMD_DISABLE_SECONDARY,
    CMD_ENABLE_KEYBOARD, CMD_ENABLE_SECONDARY, CMD_PULSE_INTERRUPT, CMD_READ_KBD_CTRL,
    CMD_READ_KBD_INPUT, CMD_READ_PORT_A, CMD_READ_PORT_B, CMD_RESET_CONTROLLER, CMD_SELF_TEST,
    CMD_TEST_CONTROLLER, CMD_TEST_KEYBOARD, CMD_WRITE_KBD_CTRL, CMD_WRITE_KBD_OUTPUT,
    CMD_WRITE_PORT_A, CMD_WRITE_SECONDARY_OUTPUT, MAX_DATA_BUFFER, OFFSET_COMMAND, OFFSET_DATA,
    OFFSET_MODE_SELECT, OFFSET_PORT_B, OFFSET_TIMER_LATCH, STATUS_KEYLOCK,
    STATUS_OUTPUT_BUFFER_FULL, STATUS_SYSTEM_FLAG,
};
use cloud_vmm::devices::reset::{reset_wait, Reset, ResetAction, ResetEvent};

fn make_device() -> I8042Device {
    let mut dev = I8042Device::new();
    dev.port_b = 0x20;
    dev
}

fn read_port(dev: &mut I8042Device, offset: u64) -> u8 {
    let mut data = [0u8];
    dev.read(0, offset, &mut data);
    data[0]
}

#[test]
fn test_port_b_read() {
    let mut dev = make_device();
    let mut data = [0u8];
    dev.read(0, OFFSET_PORT_B, &mut data);
    assert_eq!(data[0], 0x20);
}

#[test]
fn test_port_b_write() {
    let mut dev = make_device();
    dev.write(0, OFFSET_PORT_B, &[0x40]);
    let mut data = [0u8];
    dev.read(0, OFFSET_PORT_B, &mut data);
    assert_eq!(data[0], 0x40);
}

#[test]
fn test_status_read() {
    let mut dev = make_device();
    let mut data = [0u8];
    dev.read(0, OFFSET_COMMAND, &mut data);
    assert!(data[0] & STATUS_SYSTEM_FLAG != 0);
}

#[test]
fn test_keyboard_enable_disable() {
    let mut dev = make_device();

    dev.write(0, OFFSET_COMMAND, &[CMD_DISABLE_KEYBOARD]);
    assert!(!dev.keyboard_enabled);
    assert_eq!(dev.port_a & 0x01, 0);

    let mut data = [0u8];
    dev.read(0, OFFSET_DATA, &mut data);
    assert_eq!(data[0], 0xFA);

    dev.write(0, OFFSET_COMMAND, &[CMD_ENABLE_KEYBOARD]);
    assert!(dev.keyboard_enabled);
    assert_eq!(dev.port_a & 0x01, 0x01);
}

#[test]
fn test_keyboard_enable_disable_data_port() {
    let mut dev = make_device();

    dev.write(0, OFFSET_DATA, &[0xF5]);
    assert!(!dev.keyboard_enabled);
    assert_eq!(dev.port_a & 0x01, 0);

    let mut data = [0u8];
    dev.read(0, OFFSET_DATA, &mut data);
    assert_eq!(data[0], 0xFA);

    dev.write(0, OFFSET_DATA, &[0xF4]);
    assert!(dev.keyboard_enabled);
    assert_eq!(dev.port_a & 0x01, 0x01);

    dev.read(0, OFFSET_DATA, &mut data);
    assert_eq!(data[0], 0xFA);
}

#[test]
fn test_mouse_enable_disable() {
    let mut dev = make_device();

    dev.write(0, OFFSET_COMMAND, &[CMD_DISABLE_SECONDARY]);
    assert!(!dev.mouse_enabled);
    assert_eq!(dev.port_a & 0x10, 0);

    dev.write(0, OFFSET_COMMAND, &[CMD_ENABLE_SECONDARY]);
    assert!(dev.mouse_enabled);
    assert_eq!(dev.port_a & 0x10, 0x10);
}

#[test]
fn test_test_controller() {
    let mut dev = make_device();
    dev.write(0, OFFSET_COMMAND, &[CMD_TEST_CONTROLLER]);

    let mut data = [0u8];
    dev.read(0, OFFSET_DATA, &mut data);
    assert_eq!(data[0], 0x55);
}

#[test]
fn test_read_port_a() {
    let mut dev = make_device();
    dev.ctr = 0xAB;

    dev.write(0, OFFSET_COMMAND, &[CMD_READ_PORT_A]);
    let mut data = [0u8];
    dev.read(0, OFFSET_DATA, &mut data);
    assert_eq!(data[0], 0xAB);
}

#[test]
fn test_read_port_b() {
    let mut dev = make_device();
    dev.port_b = 0x42;

    dev.write(0, OFFSET_COMMAND, &[CMD_READ_PORT_B]);
    let mut data = [0u8];
    dev.read(0, OFFSET_DATA, &mut data);
    assert_eq!(data[0], 0x42);
}

#[test]
fn test_keyboard_scan_codes() {
    let mut dev = make_device();

    dev.process_keyboard_event(0x71, true);
    assert_eq!(dev.output_buffer.len(), 1);
    assert_eq!(dev.output_buffer[0], 0x10);

    dev.process_keyboard_event(0x71, false);
    assert_eq!(dev.output_buffer.len(), 3);
    assert_eq!(dev.output_buffer[1], 0xF0);
    assert_eq!(dev.output_buffer[2], 0x10);
}

#[test]
fn test_keyboard_disabled() {
    let mut dev = make_device();
    dev.keyboard_enabled = false;

    dev.process_keyboard_event(0x71, true);
    assert_eq!(dev.output_buffer.len(), 0);
}

#[test]
fn test_mouse_packet() {
    let mut dev = make_device();

    dev.process_mouse_event(0x01, 10, -5);

    assert_eq!(dev.output_buffer.len(), 3);
    let packet = dev.output_buffer.make_contiguous();
    assert_eq!(packet[0] & 0x80, 0x80);
    assert_eq!(packet[0] & 0x01, 0x01);
    assert_eq!(packet[1], 10);
    assert_eq!(packet[2], (-5i8) as u8);
}

#[test]
fn test_mouse_overflow() {
    let mut dev = make_device();

    dev.process_mouse_event(0x00, 300, 0);

    assert_eq!(dev.output_buffer.len(), 3);
    let packet = dev.output_buffer.make_contiguous();
    assert_ne!(packet[0] & 0x10, 0);
    assert_eq!(packet[1], i8::MAX as u8);
}

#[test]
fn test_mouse_disabled() {
    let mut dev = make_device();
    dev.mouse_enabled = false;

    dev.process_mouse_event(0x01, 10, 5);
    assert_eq!(dev.output_buffer.len(), 0);
}

#[test]
fn test_input_channel() {
    let mut dev = make_device();

    dev.input_channel.push_back(InputEvent::Keyboard {
        key: 0x71,
        pressed: true,
    });

    let mut data = [0u8];
    dev.read(0, OFFSET_DATA, &mut data);
    assert_eq!(data[0], 0x10);
}

#[test]
fn test_data_port_empty_read() {
    let mut dev = make_device();
    let mut data = [0u8];
    dev.read(0, OFFSET_DATA, &mut data);
    assert_eq!(data[0], 0xFF);
}

#[test]
fn test_write_keyboard_output() {
    let mut dev = make_device();

    dev.write(0, OFFSET_COMMAND, &[CMD_WRITE_KBD_OUTPUT]);
    let mut data = [0u8];
    dev.read(0, OFFSET_DATA, &mut data);
    assert_eq!(data[0], 0xFA);

    dev.write(0, OFFSET_DATA, &[0x55]);
    assert_eq!(dev.output_buffer.len(), 0);
}

#[test]
fn test_write_secondary_output() {
    let mut dev = make_device();

    dev.write(0, OFFSET_COMMAND, &[CMD_WRITE_SECONDARY_OUTPUT]);
    let mut data = [0u8];
    dev.read(0, OFFSET_DATA, &mut data);
    assert_eq!(data[0], 0xFA);

    dev.write(0, OFFSET_DATA, &[0xAA]);
    assert_eq!(dev.output_buffer.len(), 0);
}

#[test]
fn test_output_buffer_full() {
    let mut dev = make_device();
    for _ in 0..MAX_DATA_BUFFER {
        dev.push_output(0x42);
    }
    assert_eq!(dev.output_buffer.len(), MAX_DATA_BUFFER);

    dev.push_output(0xFF);
    assert_eq!(dev.output_buffer.len(), MAX_DATA_BUFFER);
}

#[test]
fn test_clamp_to_i8() {
    assert_eq!(clamp_to_i8(0), (0, false));
    assert_eq!(clamp_to_i8(127), (127, false));
    assert_eq!(clamp_to_i8(128), (127, true));
    assert_eq!(clamp_to_i8(-128), (-128, false));
    assert_eq!(clamp_to_i8(-129), (-128, true));
    assert_eq!(clamp_to_i8(32767), (127, true));
    assert_eq!(clamp_to_i8(-32768), (-128, true));
}

#[test]
fn new_device_is_idle() {
    let mut dev = I8042Device::new();
    assert_eq!(dev.status, STATUS_SYSTEM_FLAG | STATUS_KEYLOCK);
    assert_eq!(dev.port_a, 0x00);
    assert_eq!(dev.ctr, 0x40);
    assert_eq!(dev.control_reg, 0x00);
    assert!(dev.keyboard_enabled && dev.mouse_enabled);
    assert_eq!(read_port(&mut dev, OFFSET_PORT_B), 0x23);
    assert_eq!(read_port(&mut dev, OFFSET_COMMAND), 0x14);
}

#[test]
fn near_full_leaves_fewer_than_four_slots() {
    let mut dev = make_device();
    for _ in 0..28 {
        dev.push_output(1);
    }
    assert!(!dev.output_buffer_near_full());
    dev.push_output(1);
    assert!(dev.output_buffer_near_full());
}

#[test]
fn keyboard_event_tells_whether_codes_were_added() {
    let mut dev = make_device();
    assert!(dev.process_keyboard_event(0x71, true));
    assert!(!dev.process_keyboard_event(0x12345, true));
    dev.keyboard_enabled = false;
    assert!(!dev.process_keyboard_event(0x71, true));
    dev.keyboard_enabled = true;
    while dev.output_buffer.len() < MAX_DATA_BUFFER {
        dev.push_output(0);
    }
    assert!(!dev.process_keyboard_event(0x71, true));
}

#[test]
fn keyboard_codes_that_do_not_fit_are_cut() {
    let mut dev = make_device();
    for _ in 0..31 {
        dev.push_output(0);
    }
    assert!(dev.process_keyboard_event(0xFF50, false));
    assert_eq!(dev.output_buffer.len(), 32);
    assert_eq!(dev.output_buffer[31], 0xE0);
}

#[test]
fn only_the_first_byte_interrupts() {
    let mut dev = make_device();
    assert!(dev.push_output(1));
    assert!(!dev.push_output(2));
    let effects = dev.write(0, OFFSET_COMMAND, &[CMD_TEST_KEYBOARD]);
    assert_eq!(effects, Effects { interrupts: 0, reset: false });
}

#[test]
fn writes_interrupt_on_first_byte() {
    let mut dev = make_device();
    let effects = dev.write(0, OFFSET_COMMAND, &[CMD_TEST_KEYBOARD]);
    assert_eq!(effects, Effects { interrupts: 1, reset: false });
    let effects = dev.write(0, OFFSET_PORT_B, &[1]);
    assert_eq!(effects, Effects { interrupts: 0, reset: false });
}

#[test]
fn keyboard_input_command_puts_the_byte_back() {
    let mut dev = make_device();
    dev.push_output(7);
    let effects = dev.write(0, OFFSET_COMMAND, &[CMD_READ_KBD_INPUT]);
    assert_eq!(effects.interrupts, 1);
    assert_eq!(dev.output_buffer.len(), 1);
    assert_eq!(dev.output_buffer[0], 7);
    dev.push_output(8);
    let effects = dev.write(0, OFFSET_COMMAND, &[CMD_READ_KBD_INPUT]);
    assert_eq!(effects.interrupts, 0);
    assert_eq!(dev.output_buffer[0], 8);
    assert_eq!(dev.output_buffer[1], 7);
}

#[test]
fn keyboard_input_command_on_an_empty_buffer() {
    let mut dev = make_device();
    dev.write(0, OFFSET_COMMAND, &[CMD_READ_KBD_INPUT]);
    assert_eq!(read_port(&mut dev, OFFSET_DATA), 0x00);
}

#[test]
fn reads_interrupt_while_bytes_wait() {
    let mut dev = make_device();
    dev.push_output(1);
    dev.push_output(2);
    let mut data = [0u8];
    assert_eq!(dev.read(0, OFFSET_DATA, &mut data).interrupts, 1);
    assert_eq!(dev.read(0, OFFSET_DATA, &mut data).interrupts, 0);
    assert_eq!(dev.status & STATUS_OUTPUT_BUFFER_FULL, 0);
}

#[test]
fn mouse_events_interrupt_when_drained() {
    let mut dev = make_device();
    dev.input_channel.push_back(InputEvent::Mouse {
        buttons: 0,
        dx: 1,
        dy: 2,
    });
    let mut data = [0u8];
    let effects = dev.read(0, OFFSET_DATA, &mut data);
    assert_eq!(data[0], 0x80);
    assert_eq!(effects.interrupts, 2);
}

#[test]
fn accesses_of_other_sizes_do_nothing() {
    let mut dev = make_device();
    let mut data = [9u8, 9u8];
    dev.push_output(1);
    let effects = dev.read(0, OFFSET_DATA, &mut data);
    assert_eq!(data, [9u8, 9u8]);
    assert_eq!(effects, Effects { interrupts: 0, reset: false });
    let effects = dev.write(0, OFFSET_COMMAND, &[CMD_RESET_CONTROLLER, 0]);
    assert_eq!(effects, Effects { interrupts: 0, reset: false });
    assert_eq!(dev.output_buffer.len(), 1);
}

#[test]
fn other_ports_read_as_zero() {
    let mut dev = make_device();
    assert_eq!(read_port(&mut dev, OFFSET_TIMER_LATCH), 0);
    assert_eq!(read_port(&mut dev, OFFSET_MODE_SELECT), 0);
    assert_eq!(read_port(&mut dev, 17), 0);
    dev.write(0, OFFSET_TIMER_LATCH, &[5]);
    dev.write(0, OFFSET_MODE_SELECT, &[5]);
    dev.write(0, 17, &[5]);
    assert_eq!(dev.output_buffer.len(), 0);
}

#[test]
fn status_shows_waiting_bytes() {
    let mut dev = make_device();
    assert_eq!(read_port(&mut dev, OFFSET_COMMAND) & STATUS_OUTPUT_BUFFER_FULL, 0);
    dev.push_output(3);
    assert_eq!(read_port(&mut dev, OFFSET_COMMAND), 0x15);
    read_port(&mut dev, OFFSET_DATA);
    assert_eq!(read_port(&mut dev, OFFSET_COMMAND), 0x14);
}

#[test]
fn buffer_stays_within_its_bound() {
    let mut dev = make_device();
    for i in 0..100u8 {
        dev.write(0, OFFSET_COMMAND, &[CMD_TEST_KEYBOARD]);
        dev.write(0, OFFSET_DATA, &[0xF2]);
        dev.input_channel.push_back(InputEvent::Mouse { buttons: i, dx: 1, dy: 1 });
        if i % 7 == 0 {
            read_port(&mut dev, OFFSET_DATA);
        }
        assert!(dev.output_buffer.len() <= MAX_DATA_BUFFER);
        assert_eq!(dev.status & STATUS_OUTPUT_BUFFER_FULL, 1);
    }
}

#[test]
fn control_register_reads_back() {
    let mut dev = make_device();
    dev.write(0, OFFSET_COMMAND, &[CMD_WRITE_KBD_CTRL]);
    assert_eq!(read_port(&mut dev, OFFSET_DATA), 0xFA);
    dev.write(0, OFFSET_DATA, &[0x5A]);
    dev.write(0, OFFSET_COMMAND, &[CMD_READ_KBD_CTRL]);
    assert_eq!(read_port(&mut dev, OFFSET_DATA), 0x5A);
}

#[test]
fn port_a_takes_what_is_written() {
    let mut dev = make_device();
    dev.write(0, OFFSET_COMMAND, &[CMD_WRITE_PORT_A]);
    dev.write(0, OFFSET_DATA, &[0x99]);
    assert_eq!(dev.port_a, 0x99);
    assert_eq!(dev.pending_command, None);
}

#[test]
fn data_port_is_fifo() {
    let mut dev = make_device();
    for byte in [5u8, 6, 7] {
        dev.push_output(byte);
    }
    assert_eq!(read_port(&mut dev, OFFSET_DATA), 5);
    assert_eq!(read_port(&mut dev, OFFSET_DATA), 6);
    assert_eq!(read_port(&mut dev, OFFSET_DATA), 7);
    assert_eq!(read_port(&mut dev, OFFSET_DATA), 0xFF);
}

#[test]
fn command_replies_are_read() {
    for (cmd, reply) in [
        (CMD_TEST_CONTROLLER, vec![0x55u8]),
        (CMD_SELF_TEST, vec![0x55]),
        (CMD_TEST_KEYBOARD, vec![0xFA, 0x55]),
        (CMD_PULSE_INTERRUPT, vec![0xFA]),
        (CMD_READ_PORT_A, vec![0x40]),
        (CMD_READ_PORT_B, vec![0x20]),
        (CMD_READ_KBD_CTRL, vec![0x00]),
        (0x00, vec![]),
    ] {
        let mut dev = make_device();
        dev.write(0, OFFSET_COMMAND, &[cmd]);
        for byte in reply {
            assert_eq!(read_port(&mut dev, OFFSET_DATA), byte);
        }
        assert_eq!(read_port(&mut dev, OFFSET_DATA), 0xFF);
    }
}

#[test]
fn data_replies_are_read() {
    let mut dev = make_device();
    dev.write(0, OFFSET_DATA, &[0xF2]);
    assert_eq!(read_port(&mut dev, OFFSET_DATA), 0xFA);
    assert_eq!(read_port(&mut dev, OFFSET_DATA), 0xAB);
    assert_eq!(read_port(&mut dev, OFFSET_DATA), 0x83);
    dev.write(0, OFFSET_DATA, &[0xED]);
    assert_eq!(read_port(&mut dev, OFFSET_DATA), 0xFA);
    dev.write(0, OFFSET_COMMAND, &[CMD_WRITE_KBD_OUTPUT]);
    read_port(&mut dev, OFFSET_DATA);
    dev.write(0, OFFSET_DATA, &[0xF2]);
    assert_eq!(read_port(&mut dev, OFFSET_DATA), 0xFA);
    assert_eq!(read_port(&mut dev, OFFSET_DATA), 0xAB);
    assert_eq!(read_port(&mut dev, OFFSET_DATA), 0x83);
}

#[test]
fn disabled_keyboard_keeps_commands() {
    let mut dev = make_device();
    dev.keyboard_enabled = false;
    dev.write(0, OFFSET_DATA, &[0xF2]);
    assert_eq!(dev.input_buffer, Some(0xF2));
    assert_eq!(dev.output_buffer.len(), 0);
    dev.write(0, OFFSET_DATA, &[0x77]);
    assert_eq!(dev.input_buffer, Some(0x77));
}

#[test]
fn disabled_devices_are_silent() {
    let mut dev = make_device();
    dev.mouse_enabled = false;
    dev.keyboard_enabled = false;
    dev.input_channel.push_back(InputEvent::Mouse { buttons: 1, dx: 2, dy: 3 });
    dev.input_channel.push_back(InputEvent::Keyboard { key: 0x71, pressed: true });
    assert_eq!(dev.drain_input_channel(), 0);
    assert_eq!(dev.output_buffer.len(), 0);
    assert_eq!(dev.input_channel.len(), 0);
}

#[test]
fn events_are_read_byte_by_byte() {
    let mut dev = make_device();
    dev.input_channel.push_back(InputEvent::Keyboard { key: 0xFF6F, pressed: false });
    assert_eq!(read_port(&mut dev, OFFSET_DATA), 0xE0);
    assert_eq!(read_port(&mut dev, OFFSET_DATA), 0xF0);
    assert_eq!(read_port(&mut dev, OFFSET_DATA), 0x35);
}

#[test]
fn reset_is_asked_for_by_one_command() {
    let mut dev = make_device();
    let effects = dev.write(0, OFFSET_COMMAND, &[CMD_RESET_CONTROLLER]);
    assert_eq!(effects, Effects { interrupts: 0, reset: true });
    assert_eq!(dev.output_buffer.len(), 0);
    assert!(!dev.write(0, OFFSET_DATA, &[CMD_RESET_CONTROLLER]).reset);
}

#[test]
fn mouse_packet_layout() {
    let mut dev = make_device();
    dev.process_mouse_event(0xFF, -200, 200);
    assert_eq!(dev.output_buffer[0], 0x80 | 0x07 | 0x10 | 0x08 | 0x40);
    assert_eq!(dev.output_buffer[1], 0x80);
    assert_eq!(dev.output_buffer[2], 0x7F);
    let mut dev = make_device();
    dev.process_mouse_event(2, 3, -1);
    assert_eq!(dev.output_buffer[0], 0x80 | 0x02 | 0x20);
    assert_eq!(dev.output_buffer[1], 3);
    assert_eq!(dev.output_buffer[2], 0xFF);
}

#[test]
fn status_is_one_of_two_values() {
    let mut dev = I8042Device::new();
    for i in 0..=255u8 {
        dev.write(0, OFFSET_COMMAND, &[i]);
        assert_eq!(dev.status, if dev.output_buffer.is_empty() { 0x14 } else { 0x15 });
        dev.write(0, OFFSET_DATA, &[i]);
        assert_eq!(dev.status, if dev.output_buffer.is_empty() { 0x14 } else { 0x15 });
        for _ in 0..i % 5 {
            read_port(&mut dev, OFFSET_DATA);
            assert_eq!(dev.status, if dev.output_buffer.is_empty() { 0x14 } else { 0x15 });
        }
    }
}

#[test]
fn reset_waits_for_either_flag() {
    assert_eq!(reset_wait(false, false), Some(1));
    assert_eq!(reset_wait(true, false), None);
    assert_eq!(reset_wait(false, true), None);
    assert_eq!(reset_wait(true, true), None);
}

#[test]
fn reset_is_signalled_once_and_waited_for() {
    let mut reset = Reset::new();
    let mut signals = 0;
    let mut looks = 0;
    loop {
        let event = match reset.action() {
            ResetAction::Signal => {
                signals += 1;
                ResetEvent::Signalled
            }
            ResetAction::AskFlags => {
                looks += 1;
                ResetEvent::Flags { killed: false, paused: looks == 3 }
            }
            ResetAction::Rest(milliseconds) => {
                assert_eq!(milliseconds, 1);
                ResetEvent::Rested
            }
            ResetAction::Return => break,
        };
        reset = reset.advance(event);
    }
    assert_eq!((signals, looks), (1, 3));
    assert_eq!(reset.advance(ResetEvent::Signalled), Reset::Complete);
    let early = Reset::new().advance(ResetEvent::Flags { killed: true, paused: true });
    assert_eq!(early, Reset::Signal);
}

#[test]
fn not_near_full_loses_nothing() {
    let events = [
        InputEvent::Keyboard { key: 0xFF50, pressed: false },
        InputEvent::Mouse { buttons: 1, dx: 2, dy: 3 },
    ];
    for event in events {
        let mut dev = make_device();
        while !dev.output_buffer_near_full() {
            let before = dev.output_buffer.len();
            dev.input_channel.push_back(event);
            dev.drain_input_channel();
            assert_eq!(dev.output_buffer.len(), before + 3);
        }
        assert!(dev.output_buffer.len() > 28);
    }
}

#[test]
fn direct_events_keep_the_status_true() {
    let mut dev = I8042Device::new();
    for _ in 0..40 {
        dev.process_keyboard_event(0x71, true);
        assert!(dev.output_buffer.len() <= MAX_DATA_BUFFER);
        assert_eq!(dev.status, 0x15);
    }
}
