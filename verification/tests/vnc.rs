use std::io::{Cursor, Read, Result, Write};

use cloud_vmm::display::client_input::{check_client_input, InputReader, VncInputEvent};
use cloud_vmm::display::rfb::{
    framebuffer_bytes, handshake, security, security_offer, send_framebuffer_update, server_init,
    version_message, RfbError,
};
use cloud_vmm::display::server::{
    Server, ServerAction, ServerEvent, VncListenerType, VncServerConfig,
};
use cloud_vmm::display::setup::{Setup, SetupAction, SetupEvent};
use cloud_vmm::display::stream::{Stream, StreamAction, StreamEvent, StreamStep};

struct MockSocket {
    read_buf: Cursor<Vec<u8>>,
    write_buf: Vec<u8>,
}

impl MockSocket {
    fn new() -> Self {
        Self {
            read_buf: Cursor::new(Vec::new()),
            write_buf: Vec::new(),
        }
    }

    fn queue_read_data(&mut self, data: &[u8]) {
        self.read_buf = Cursor::new(data.to_vec());
    }

    fn written_data(&self) -> &[u8] {
        &self.write_buf
    }
}

impl Read for MockSocket {
    fn read(&mut self, buf: &mut [u8]) -> Result<usize> {
        self.read_buf.read(buf)
    }
}

impl Write for MockSocket {
    fn write(&mut self, buf: &[u8]) -> Result<usize> {
        self.write_buf.extend_from_slice(buf);
        Ok(buf.len())
    }

    fn flush(&mut self) -> Result<()> {
        Ok(())
    }
}

/// Drives the setup over the socket until it asks for the size of the display, for
/// input that is not there, or for nothing more.
fn drive(sock: &mut MockSocket, mut setup: Setup) -> Setup {
    loop {
        match setup.action() {
            SetupAction::Send(bytes) => {
                sock.write_all(&bytes).unwrap();
                setup = setup.advance(SetupEvent::Sent);
            }
            SetupAction::Receive(count) => {
                let mut bytes = vec![0u8; count];
                if sock.read_exact(&mut bytes).is_err() {
                    return setup;
                }
                setup = setup.advance(SetupEvent::Received(bytes));
            }
            SetupAction::AskSize | SetupAction::Proceed | SetupAction::GiveUp => return setup,
        }
    }
}

#[test]
fn test_rfb38_handshake() {
    let mut sock = MockSocket::new();
    sock.queue_read_data(b"RFB 003.008\n");
    let result = handshake(b"RFB 003.008\n".to_vec());
    assert!(result.is_ok(), "handshake should succeed for RFB 3.8");
    assert!(result.unwrap(), "should negotiate RFB 3.8");
    let setup = drive(&mut sock, Setup::new());
    assert!(matches!(setup, Setup::AwaitChoice { use_rfb38: true }));
    assert!(sock.written_data().starts_with(b"RFB 003.008\n"));
}

#[test]
fn test_rfb33_handshake() {
    let mut sock = MockSocket::new();
    sock.queue_read_data(b"RFB 003.003\n");
    let setup = drive(&mut sock, Setup::new());
    assert!(matches!(setup, Setup::AwaitChoice { use_rfb38: false }));
    let result = handshake(b"RFB 003.003\n".to_vec());
    assert!(result.is_ok());
    assert!(!result.unwrap(), "should fall back to RFB 3.3");
}

#[test]
fn test_rfb38_security_noauth() {
    let mut sock = MockSocket::new();
    sock.queue_read_data(&[1]);
    let setup = drive(&mut sock, Setup::Offer { use_rfb38: true });
    assert!(
        matches!(setup, Setup::Measure),
        "security should succeed for type 1 (None)"
    );
    security(true, 1).1.expect("security should succeed for type 1 (None)");
    let w = sock.written_data();
    assert_eq!(&w[0..1], &[1]);
    assert_eq!(&w[1..2], &[1]);
    assert_eq!(&w[2..6], &[0, 0, 0, 0]);
}

#[test]
fn test_full_rfb38_handshake() {
    let mut sock = MockSocket::new();

    sock.queue_read_data(b"RFB 003.008\n");
    let setup = drive(&mut sock, Setup::new());
    assert!(
        matches!(setup, Setup::AwaitChoice { use_rfb38: true }),
        "handshake failed"
    );

    sock.queue_read_data(&[1]);
    let setup = drive(&mut sock, setup);
    assert!(matches!(setup, Setup::Measure), "security failed");

    sock.queue_read_data(&[]);
    let setup = drive(
        &mut sock,
        setup.advance(SetupEvent::Size { width: 800, height: 600 }),
    );
    assert!(matches!(setup, Setup::AwaitShared), "server_init failed");

    sock.queue_read_data(&[1]);
    let setup = drive(&mut sock, setup);
    assert!(matches!(setup, Setup::Ready), "client_init failed");

    let w = sock.written_data();
    assert!(w.starts_with(b"RFB 003.008\n"));
    assert_eq!(&w[12..13], &[1]);
    assert_eq!(&w[13..14], &[1]);
    assert_eq!(&w[14..18], &[0, 0, 0, 0]);
    assert_eq!(&w[18..20], &(800u16).to_be_bytes());
    assert_eq!(&w[20..22], &(600u16).to_be_bytes());
}

#[test]
fn ready_sessions_were_greeted_and_nothing_more() {
    let mut sock = MockSocket::new();
    sock.queue_read_data(b"RFB 003.008\n\x01");
    let setup = drive(&mut sock, Setup::new());
    let setup = drive(&mut sock, setup.advance(SetupEvent::Size { width: 2, height: 3 }));
    sock.queue_read_data(&[0]);
    assert!(matches!(drive(&mut sock, setup), Setup::Ready));
    let mut expected = version_message();
    expected.extend(security_offer(true));
    expected.extend(security(true, 1).0);
    expected.extend(server_init(2, 3));
    assert_eq!(sock.written_data(), expected.as_slice());
}

#[test]
fn versions_are_found_anywhere() {
    assert!(handshake(b"003.0083.003".to_vec()).unwrap());
    assert!(!handshake(b"xxxxx003.003".to_vec()).unwrap());
    assert!(handshake(b"RFB 003.007\n".to_vec()).is_err());
    assert!(handshake(Vec::new()).is_err());
}

#[test]
fn unsupported_version_is_refused() {
    let mut sock = MockSocket::new();
    sock.queue_read_data(b"RFB 004.000\n");
    match drive(&mut sock, Setup::new()) {
        Setup::Failed(RfbError::UnsupportedVersion(version)) => {
            assert_eq!(version, b"RFB 004.000\n".to_vec())
        }
        other => panic!("unexpected {other:?}"),
    }
    assert_eq!(sock.written_data(), b"RFB 003.008\n");
}

#[test]
fn wrong_choice_is_answered() {
    for use_rfb38 in [true, false] {
        let mut sock = MockSocket::new();
        sock.queue_read_data(&[2]);
        let setup = drive(&mut sock, Setup::AwaitChoice { use_rfb38 });
        assert!(matches!(setup, Setup::Failed(RfbError::InvalidSecurityType)));
        assert_eq!(sock.written_data(), b"\x00\x00\x00\x01Invalid security type");
    }
}

#[test]
fn old_version_is_refused() {
    let mut sock = MockSocket::new();
    sock.queue_read_data(&[1]);
    let setup = drive(&mut sock, Setup::Offer { use_rfb38: false });
    assert!(matches!(
        setup,
        Setup::Failed(RfbError::AuthenticationUnsupported)
    ));
    assert_eq!(sock.written_data(), &[0, 0, 0, 1]);
}

#[test]
fn setup_ignores_what_it_did_not_ask_for() {
    let setup = Setup::new().advance(SetupEvent::Received(vec![1]));
    assert!(matches!(setup, Setup::Greet));
    let setup = Setup::AwaitShared.advance(SetupEvent::Received(Vec::new()));
    assert!(matches!(setup, Setup::AwaitShared));
    let setup = Setup::Ready.advance(SetupEvent::Sent);
    assert!(matches!(setup, Setup::Ready));
}

#[test]
fn init_layout() {
    let message = server_init(0x10102, 0x0304);
    assert_eq!(message.len(), 40);
    assert_eq!(&message[0..4], &[0x01, 0x02, 0x03, 0x04]);
    assert_eq!(
        &message[4..20],
        &[32, 24, 0, 1, 0, 255, 0, 255, 0, 255, 16, 8, 0, 0, 0, 0]
    );
    assert_eq!(&message[20..24], &[0, 0, 0, 16]);
    assert_eq!(&message[24..], b"Cloud Hypervisor");
}

#[test]
fn update_layout() {
    let data: Vec<u8> = (0..20).collect();
    let message = send_framebuffer_update(&data, 2, 2).unwrap();
    assert_eq!(
        &message[..16],
        &[0, 0, 0, 1, 0, 0, 0, 0, 0, 2, 0, 2, 0, 0, 0, 0]
    );
    assert_eq!(&message[16..], &data[..16]);
    assert_eq!(framebuffer_bytes(2, 2), 16);
}

#[test]
fn update_needs_all_pixels() {
    assert!(matches!(
        send_framebuffer_update(&[0; 15], 2, 2),
        Err(RfbError::FramebufferTooSmall)
    ));
    assert_eq!(send_framebuffer_update(&[], 0, 7).unwrap().len(), 16);
}

#[test]
fn key_message() {
    assert_eq!(
        check_client_input(&[4, 1, 0, 0, 0, 0, 0xFF, 0x0D]),
        vec![VncInputEvent::Keyboard { key: 0xFF0D, down: true }]
    );
    assert_eq!(
        check_client_input(&[4, 0, 9, 9, 0x01, 0x02, 0x03, 0x04]),
        vec![VncInputEvent::Keyboard { key: 0x01020304, down: false }]
    );
}

#[test]
fn pointer_message() {
    assert_eq!(
        check_client_input(&[5, 0b101, 0, 0, 0, 0x01, 0x02, 0x03, 0x04]),
        vec![
            VncInputEvent::MouseButton { button: 0, down: true },
            VncInputEvent::MouseButton { button: 1, down: false },
            VncInputEvent::MouseButton { button: 2, down: true },
            VncInputEvent::PointerPosition { x: 0x0102, y: 0x0304 },
        ]
    );
}

#[test]
fn qemu_key_message() {
    assert_eq!(
        check_client_input(&[0xFF, 0, 0, 1, 0, 0, 0, 0x71, 0, 0, 0, 16, 0]),
        vec![VncInputEvent::Keyboard { key: 0x71, down: true }]
    );
    assert_eq!(
        check_client_input(&[0xFF, 1, 0, 1, 0, 0, 0, 0x71, 0, 0, 0, 16, 0]),
        Vec::new()
    );
}

#[test]
fn messages_concatenate() {
    let key = [4u8, 1, 0, 0, 0, 0, 0, 0x61];
    let cut = [6u8, 0, 0, 0, 2, 4, 4];
    let request = [3u8, 1, 0, 0, 1, 4, 4, 4, 4, 4, 4, 4, 4, 4, 4, 4, 4];
    let colours = [9u8, 0, 0, 0, 1, 4, 4, 4, 4, 4, 4];
    let encodings = [2u8, 0, 0, 0, 1, 4, 4, 4, 4];
    let colour_map = [1u8, 0, 0, 0, 0, 0, 1, 4, 4, 4, 4, 4, 4];
    let mut pixel_format = [4u8; 24];
    pixel_format[0] = 0;
    let mut stream = Vec::new();
    for message in [
        &cut[..],
        &key[..],
        &request[..],
        &key[..],
        &colours[..],
        &key[..],
        &encodings[..],
        &colour_map[..],
        &pixel_format[..],
        &key[..],
    ] {
        stream.extend_from_slice(message);
    }
    let event = VncInputEvent::Keyboard { key: 0x61, down: true };
    assert_eq!(check_client_input(&stream), vec![event; 4]);
}

#[test]
fn cut_message_is_silent() {
    assert_eq!(check_client_input(&[4, 1, 0, 0, 0, 0, 0]), Vec::new());
    assert_eq!(
        check_client_input(&[6, 0, 0, 1, 0, 4, 1, 0, 0, 0, 0, 0, 0x61]),
        Vec::new()
    );
    assert_eq!(check_client_input(&[]), Vec::new());
}

#[test]
fn unknown_type_is_skipped() {
    assert_eq!(
        check_client_input(&[7, 8, 200, 4, 1, 0, 0, 0, 0, 0, 0x61]),
        vec![VncInputEvent::Keyboard { key: 0x61, down: true }]
    );
}

#[test]
fn reader_does_not_wait_for_rectangles() {
    let reader = InputReader::Kind;
    assert_eq!(reader.wanted(), 1);
    let (reader, events) = reader.advance(&[3]);
    assert!(events.is_empty());
    assert_eq!(reader.wanted(), 4);
    let (reader, _) = reader.advance(&[1, 0, 0, 2]);
    assert_eq!(reader.wanted(), 24);
    assert_eq!(reader.fail(), InputReader::Kind);
    assert_eq!(InputReader::Header { kind: 3 }.fail(), InputReader::Finished);
    assert_eq!(InputReader::Body { kind: 6, length: 1 }.fail(), InputReader::Finished);
}

fn pixels(value: u8) -> Vec<u8> {
    vec![value; 16]
}

fn fetch(stream: Stream, data: Option<Vec<u8>>) -> Stream {
    assert!(matches!(stream.action(), StreamAction::ReadFramebuffer));
    stream.advance(StreamEvent::Framebuffer(data))
}

fn round(stream: Stream) -> Stream {
    assert!(matches!(stream.action(), StreamAction::AskRunning));
    let stream = stream.advance(StreamEvent::Running(true));
    assert!(matches!(stream.action(), StreamAction::PollInput));
    stream.advance(StreamEvent::InputPolled {
        polled: false,
        hangup: false,
        readable: false,
    })
}

fn started() -> Stream {
    let stream = fetch(Stream::new(), Some(pixels(1)));
    let stream = stream.advance(StreamEvent::Size { width: 2, height: 2 });
    match stream.action() {
        StreamAction::Send(message) => {
            assert_eq!(message, send_framebuffer_update(&pixels(1), 2, 2).unwrap())
        }
        other => panic!("unexpected {other:?}"),
    }
    stream.advance(StreamEvent::Sent(true))
}

#[test]
fn first_update_goes_out_at_once() {
    let stream = started();
    assert_eq!(stream.last, Some(pixels(1)));
    assert!(matches!(stream.step, StreamStep::CheckRunning));
}

#[test]
fn first_update_may_fail() {
    let stream = fetch(Stream::new(), None);
    assert!(matches!(stream.step, StreamStep::CheckRunning));
    let stream = fetch(Stream::new(), Some(vec![0; 3]));
    let stream = stream.advance(StreamEvent::Size { width: 2, height: 2 });
    assert!(matches!(stream.step, StreamStep::CheckRunning));
    let stream = fetch(Stream::new(), Some(pixels(1)));
    let stream = stream.advance(StreamEvent::Size { width: 2, height: 2 });
    let stream = stream.advance(StreamEvent::Sent(false));
    assert!(matches!(stream.step, StreamStep::CheckRunning));
    assert_eq!(stream.last, None);
}

#[test]
fn unchanged_pixels_stay() {
    let stream = fetch(round(started()), Some(pixels(1)));
    assert!(matches!(stream.action(), StreamAction::Rest(100)));
    assert_eq!(stream.last, Some(pixels(1)));
}

#[test]
fn changed_pixels_are_sent() {
    let stream = fetch(round(started()), Some(pixels(2)));
    assert!(matches!(stream.action(), StreamAction::PollOutput));
    let stream = stream.advance(StreamEvent::OutputPolled {
        polled: true,
        writable: true,
    });
    assert!(matches!(stream.action(), StreamAction::AskSize));
    let stream = stream.advance(StreamEvent::Size { width: 2, height: 2 });
    match stream.action() {
        StreamAction::Send(message) => assert_eq!(&message[16..], pixels(2).as_slice()),
        other => panic!("unexpected {other:?}"),
    }
    assert_eq!(stream.last, Some(pixels(1)));
    let stream = stream.advance(StreamEvent::Sent(true));
    assert!(matches!(stream.action(), StreamAction::Rest(40)));
    assert_eq!(stream.last, Some(pixels(2)));
    let stream = stream.advance(StreamEvent::Rested);
    assert!(matches!(stream.action(), StreamAction::AskRunning));
}

#[test]
fn busy_client_gets_nothing() {
    let stream = fetch(round(started()), Some(pixels(2)));
    let stream = stream.advance(StreamEvent::OutputPolled {
        polled: true,
        writable: false,
    });
    assert!(matches!(stream.action(), StreamAction::Rest(100)));
    assert_eq!(stream.last, Some(pixels(1)));
}

#[test]
fn failed_updates_end_the_session() {
    for (width, sent) in [(2, false), (9, true)] {
        let stream = fetch(round(started()), Some(pixels(2)));
        let stream = stream.advance(StreamEvent::OutputPolled {
            polled: true,
            writable: true,
        });
        let stream = stream.advance(StreamEvent::Size { width, height: 2 });
        let stream = stream.advance(StreamEvent::Sent(sent));
        assert!(matches!(
            stream.step,
            StreamStep::Failed(RfbError::UpdateFailed)
        ));
        assert!(matches!(stream.action(), StreamAction::GiveUp));
    }
}

#[test]
fn input_comes_first() {
    let stream = started().advance(StreamEvent::Running(true));
    let stream = stream.advance(StreamEvent::InputPolled {
        polled: true,
        hangup: false,
        readable: true,
    });
    assert!(matches!(stream.action(), StreamAction::DrainInput));
    let stream = stream.advance(StreamEvent::Drained);
    assert!(matches!(stream.action(), StreamAction::ReadFramebuffer));
    let stream = fetch(stream, None);
    assert!(matches!(stream.action(), StreamAction::Rest(100)));
}

#[test]
fn hangup_ends_the_session() {
    let stream = started().advance(StreamEvent::Running(true));
    let stream = stream.advance(StreamEvent::InputPolled {
        polled: true,
        hangup: true,
        readable: true,
    });
    assert!(matches!(stream.step, StreamStep::Failed(RfbError::Hangup)));
    let stream = stream.advance(StreamEvent::Rested);
    assert!(matches!(stream.step, StreamStep::Failed(RfbError::Hangup)));
}

#[test]
fn stopped_session_notifies() {
    let stream = started().advance(StreamEvent::Running(false));
    assert!(matches!(stream.action(), StreamAction::Notify));
    let stream = stream.advance(StreamEvent::Notified);
    assert!(matches!(stream.action(), StreamAction::Leave));
}

#[test]
fn server_waits_for_the_display() {
    let server = Server::new();
    assert_eq!(server.action(), ServerAction::AskRunning);
    let server = server.advance(ServerEvent::Running(true));
    assert_eq!(server.action(), ServerAction::AskInitialized);
    let server = server.advance(ServerEvent::Initialized(false));
    assert_eq!(server.action(), ServerAction::Rest(100));
    let server = server.advance(ServerEvent::Accepted(true));
    assert_eq!(server.action(), ServerAction::Rest(100));
    let server = server.advance(ServerEvent::Rested);
    let server = server.advance(ServerEvent::Running(true));
    let server = server.advance(ServerEvent::Initialized(true));
    assert_eq!(server, Server::CheckAccepting);
}

#[test]
fn server_serves_one_client_at_a_time() {
    let server = Server::CheckAccepting.advance(ServerEvent::Running(true));
    assert_eq!(server.action(), ServerAction::Accept);
    let serving = server.advance(ServerEvent::Accepted(true));
    assert_eq!(serving.action(), ServerAction::Serve);
    assert_eq!(serving.advance(ServerEvent::Accepted(true)), serving);
    assert_eq!(serving.advance(ServerEvent::Served), Server::CheckAccepting);
    let resting = server.advance(ServerEvent::Accepted(false));
    assert_eq!(resting.action(), ServerAction::Rest(100));
    assert_eq!(resting.advance(ServerEvent::Rested), Server::CheckAccepting);
}

#[test]
fn server_stops() {
    for server in [Server::CheckWaiting, Server::CheckAccepting] {
        let stopped = server.advance(ServerEvent::Running(false));
        assert_eq!(stopped.action(), ServerAction::Leave);
        assert_eq!(stopped.advance(ServerEvent::Running(true)), Server::Stopped);
    }
}

#[test]
fn listener_configurations_are_cloned() {
    let config = VncServerConfig {
        listener: VncListenerType::Unix {
            path: "/run/vnc".to_string(),
        },
    };
    match config.clone().listener {
        VncListenerType::Unix { path } => assert_eq!(path, "/run/vnc"),
        VncListenerType::Tcp { .. } => panic!("another listener"),
    }
    let tcp = VncListenerType::Tcp { port: 5900 };
    assert!(matches!(tcp.clone(), VncListenerType::Tcp { port: 5900 }));
}

#[test]
fn reader_tells_input_read_by_read() {
    let sent = [
        6u8, 0, 0, 0, 2, 4, 4, 4, 1, 0, 0, 0, 0, 0, 0x61, 200, 5, 1, 0, 0, 0, 0, 7, 0, 9, 4, 1, 0, 0,
    ];
    let mut reader = InputReader::Kind;
    let mut events = Vec::new();
    let mut rest = &sent[..];
    while reader.wanted() <= rest.len() {
        let (bytes, after) = rest.split_at(reader.wanted());
        let (next, more) = reader.advance(bytes);
        events.extend(more);
        reader = next;
        rest = after;
    }
    assert_eq!(rest.len(), 3);
    assert_eq!(reader.fail(), InputReader::Finished);
    assert_eq!(events.len(), 5);
    assert_eq!(events, check_client_input(&sent));
}

/// Answers every question of a session: it is stopped after `rounds` rounds, and the
/// connection hangs up in round `hangup`. Returns how often it was stopped and told,
/// and how it ended.
fn play(rounds: usize, hangup: usize) -> (usize, usize, StreamStep) {
    let mut stream = Stream::new();
    let mut round = 0;
    let mut stopped = 0;
    let mut told = 0;
    loop {
        let event = match stream.action() {
            StreamAction::AskRunning => {
                round += 1;
                if round > rounds {
                    stopped += 1;
                }
                StreamEvent::Running(round <= rounds)
            }
            StreamAction::PollInput => StreamEvent::InputPolled {
                polled: true,
                hangup: round == hangup,
                readable: true,
            },
            StreamAction::DrainInput => StreamEvent::Drained,
            StreamAction::ReadFramebuffer => StreamEvent::Framebuffer(Some(pixels(round as u8))),
            StreamAction::PollOutput => StreamEvent::OutputPolled {
                polled: true,
                writable: true,
            },
            StreamAction::AskSize => StreamEvent::Size { width: 2, height: 2 },
            StreamAction::Send(_) => StreamEvent::Sent(true),
            StreamAction::Rest(_) => StreamEvent::Rested,
            StreamAction::Notify => {
                assert_eq!(stopped, 1);
                told += 1;
                StreamEvent::Notified
            }
            StreamAction::Leave | StreamAction::GiveUp => return (stopped, told, stream.step),
        };
        stream = stream.advance(event);
    }
}

#[test]
fn finished_session_notified_once() {
    assert!(matches!(play(3, 9), (1, 1, StreamStep::Finished)));
}

#[test]
fn failed_session_never_notified() {
    assert!(matches!(
        play(3, 2),
        (0, 0, StreamStep::Failed(RfbError::Hangup))
    ));
}
