//! How a VNC session runs once it is set up: input is taken in, the framebuffer is
//! watched, and changes are sent.

use vstd::prelude::*;

use crate::display::rfb::{send_framebuffer_update, RfbError};

verus! {

/// Milliseconds of rest after an update: 25 updates a second.
pub const UPDATE_INTERVAL: u64 = 40;

/// Milliseconds of rest where there was nothing to send: input is looked for ten times
/// a second.
pub const INPUT_INTERVAL: u64 = 100;

/// A running session.
#[derive(Debug)]
pub struct Stream {
    /// The pixels that the client has seen last.
    pub last: Option<Vec<u8>>,
    /// Where the session stands.
    pub step: StreamStep,
}

/// Where a running session stands. The first update goes out at once; after that the
/// session goes round until it is stopped.
#[derive(Debug)]
pub enum StreamStep {
    /// It is to be found out whether the session is to go on.
    CheckRunning,
    /// It is to be found out whether the client sent input.
    PollInput,
    /// Input is to be taken in.
    Drain,
    /// The framebuffer is to be read.
    Fetch { first: bool },
    /// Pixels have changed, and it is to be found out whether the client takes them.
    PollOutput { pixels: Vec<u8> },
    /// Pixels are to be sent, and the size of the display is to be found out.
    Measure { first: bool, pixels: Vec<u8> },
    /// Pixels are to be sent, in this message.
    Update { first: bool, pixels: Vec<u8>, message: Vec<u8> },
    /// The session rests, after an update or without one.
    Rest { updated: bool },
    /// Whoever wants to know is to be told that the session ends.
    Notify,
    /// The session has ended.
    Finished,
    /// The session is given up.
    Failed(RfbError),
}

/// What a running session asks for next.
#[derive(Debug)]
pub enum StreamAction {
    /// Find out whether the session is to go on.
    AskRunning,
    /// Find out whether the client sent input, without waiting.
    PollInput,
    /// Take in all input that there is.
    DrainInput,
    /// Read the framebuffer.
    ReadFramebuffer,
    /// Find out whether the client takes data, without waiting.
    PollOutput,
    /// Find out the size of the display.
    AskSize,
    /// Send these bytes, all of them.
    Send(Vec<u8>),
    /// Rest for that many milliseconds.
    Rest(u64),
    /// Tell that the session ends.
    Notify,
    /// Nothing: the session has ended.
    Leave,
    /// Nothing: the session is given up.
    GiveUp,
}

/// How a running session was answered.
#[derive(Debug)]
pub enum StreamEvent {
    /// The session is to go on, or not.
    Running(bool),
    /// Whether the client's connection reported anything, a hangup or an error, and
    /// input.
    InputPolled { polled: bool, hangup: bool, readable: bool },
    /// Input was taken in.
    Drained,
    /// The framebuffer, where there is one.
    Framebuffer(Option<Vec<u8>>),
    /// Whether the client's connection reported anything, and that it takes data.
    OutputPolled { polled: bool, writable: bool },
    /// The display has this size.
    Size { width: u32, height: u32 },
    /// The bytes were sent, or not.
    Sent(bool),
    /// The rest is over.
    Rested,
    /// Whoever wanted to know was told.
    Notified,
}

/// A running session, with bytes as sequences.
pub struct StreamView {
    pub last: Option<Seq<u8>>,
    pub step: StreamStepView,
}

/// Where a running session stands, with bytes as sequences.
pub enum StreamStepView {
    CheckRunning,
    PollInput,
    Drain,
    Fetch { first: bool },
    PollOutput { pixels: Seq<u8> },
    Measure { first: bool, pixels: Seq<u8> },
    Update { first: bool, pixels: Seq<u8>, message: Seq<u8> },
    Rest { updated: bool },
    Notify,
    Finished,
    Failed(RfbError),
}

/// What a running session asks for next, with bytes as sequences.
pub enum StreamActionView {
    AskRunning,
    PollInput,
    DrainInput,
    ReadFramebuffer,
    PollOutput,
    AskSize,
    Send(Seq<u8>),
    Rest(nat),
    Notify,
    Leave,
    GiveUp,
}

/// How a running session was answered, with bytes as sequences.
pub enum StreamEventView {
    Running(bool),
    InputPolled { polled: bool, hangup: bool, readable: bool },
    Drained,
    Framebuffer(Option<Seq<u8>>),
    OutputPolled { polled: bool, writable: bool },
    Size { width: u32, height: u32 },
    Sent(bool),
    Rested,
    Notified,
}

/// Bytes, if there are any, as a sequence.
pub open spec fn bytes_view(bytes: Option<Vec<u8>>) -> Option<Seq<u8>> {
    match bytes {
        Some(bytes) => Some(bytes@),
        None => None,
    }
}

impl View for StreamStep {
    type V = StreamStepView;

    open spec fn view(&self) -> StreamStepView {
        match *self {
            StreamStep::CheckRunning => StreamStepView::CheckRunning,
            StreamStep::PollInput => StreamStepView::PollInput,
            StreamStep::Drain => StreamStepView::Drain,
            StreamStep::Fetch { first } => StreamStepView::Fetch { first },
            StreamStep::PollOutput { pixels } => StreamStepView::PollOutput { pixels: pixels@ },
            StreamStep::Measure { first, pixels } => StreamStepView::Measure {
                first,
                pixels: pixels@,
            },
            StreamStep::Update { first, pixels, message } => StreamStepView::Update {
                first,
                pixels: pixels@,
                message: message@,
            },
            StreamStep::Rest { updated } => StreamStepView::Rest { updated },
            StreamStep::Notify => StreamStepView::Notify,
            StreamStep::Finished => StreamStepView::Finished,
            StreamStep::Failed(error) => StreamStepView::Failed(error),
        }
    }
}

impl View for Stream {
    type V = StreamView;

    open spec fn view(&self) -> StreamView {
        StreamView { last: bytes_view(self.last), step: self.step@ }
    }
}

impl View for StreamAction {
    type V = StreamActionView;

    open spec fn view(&self) -> StreamActionView {
        match *self {
            StreamAction::AskRunning => StreamActionView::AskRunning,
            StreamAction::PollInput => StreamActionView::PollInput,
            StreamAction::DrainInput => StreamActionView::DrainInput,
            StreamAction::ReadFramebuffer => StreamActionView::ReadFramebuffer,
            StreamAction::PollOutput => StreamActionView::PollOutput,
            StreamAction::AskSize => StreamActionView::AskSize,
            StreamAction::Send(message) => StreamActionView::Send(message@),
            StreamAction::Rest(milliseconds) => StreamActionView::Rest(milliseconds as nat),
            StreamAction::Notify => StreamActionView::Notify,
            StreamAction::Leave => StreamActionView::Leave,
            StreamAction::GiveUp => StreamActionView::GiveUp,
        }
    }
}

impl View for StreamEvent {
    type V = StreamEventView;

    open spec fn view(&self) -> StreamEventView {
        match *self {
            StreamEvent::Running(running) => StreamEventView::Running(running),
            StreamEvent::InputPolled {
                polled,
                hangup,
                readable,
            } => StreamEventView::InputPolled { polled, hangup, readable },
            StreamEvent::Drained => StreamEventView::Drained,
            StreamEvent::Framebuffer(data) => StreamEventView::Framebuffer(bytes_view(data)),
            StreamEvent::OutputPolled { polled, writable } => StreamEventView::OutputPolled {
                polled,
                writable,
            },
            StreamEvent::Size { width, height } => StreamEventView::Size { width, height },
            StreamEvent::Sent(sent) => StreamEventView::Sent(sent),
            StreamEvent::Rested => StreamEventView::Rested,
            StreamEvent::Notified => StreamEventView::Notified,
        }
    }
}

impl StreamView {
    /// A session that was just set up.
    pub open spec fn started() -> StreamView {
        StreamView { last: None, step: StreamStepView::Fetch { first: true } }
    }

    /// The same session at another step.
    pub open spec fn at(self, step: StreamStepView) -> StreamView {
        StreamView { step, ..self }
    }

    /// What the session asks for next.
    pub open spec fn spec_action(self) -> StreamActionView {
        match self.step {
            StreamStepView::CheckRunning => StreamActionView::AskRunning,
            StreamStepView::PollInput => StreamActionView::PollInput,
            StreamStepView::Drain => StreamActionView::DrainInput,
            StreamStepView::Fetch { .. } => StreamActionView::ReadFramebuffer,
            StreamStepView::PollOutput { .. } => StreamActionView::PollOutput,
            StreamStepView::Measure { .. } => StreamActionView::AskSize,
            StreamStepView::Update { message, .. } => StreamActionView::Send(message),
            StreamStepView::Rest { updated } => StreamActionView::Rest(
                if updated {
                    UPDATE_INTERVAL as nat
                } else {
                    INPUT_INTERVAL as nat
                },
            ),
            StreamStepView::Notify => StreamActionView::Notify,
            StreamStepView::Finished => StreamActionView::Leave,
            StreamStepView::Failed(_) => StreamActionView::GiveUp,
        }
    }

    /// The session after the framebuffer was read. The first pixels go out as they are;
    /// later ones only where the client has not seen them last.
    pub open spec fn fetched(self, first: bool, data: Option<Seq<u8>>) -> StreamView {
        match data {
            Some(pixels) => if first {
                self.at(StreamStepView::Measure { first, pixels })
            } else if self.last == Some(pixels) {
                self.at(StreamStepView::Rest { updated: false })
            } else {
                self.at(StreamStepView::PollOutput { pixels })
            },
            None => if first {
                self.at(StreamStepView::CheckRunning)
            } else {
                self.at(StreamStepView::Rest { updated: false })
            },
        }
    }

    /// The session after an update could not be made or sent. The first one may fail.
    pub open spec fn not_updated(self, first: bool) -> StreamView {
        if first {
            self.at(StreamStepView::CheckRunning)
        } else {
            self.at(StreamStepView::Failed(RfbError::UpdateFailed))
        }
    }

    /// The session after an answer. One that does not fit the question changes nothing.
    pub open spec fn spec_advance(self, event: StreamEventView) -> StreamView {
        match (self.step, event) {
            (StreamStepView::CheckRunning, StreamEventView::Running(running)) => if running {
                self.at(StreamStepView::PollInput)
            } else {
                self.at(StreamStepView::Notify)
            },
            (
                StreamStepView::PollInput,
                StreamEventView::InputPolled { polled, hangup, readable },
            ) => if polled && hangup {
                self.at(StreamStepView::Failed(RfbError::Hangup))
            } else if polled && readable {
                self.at(StreamStepView::Drain)
            } else {
                self.at(StreamStepView::Fetch { first: false })
            },
            (StreamStepView::Drain, StreamEventView::Drained) => self.at(
                StreamStepView::Fetch { first: false },
            ),
            (StreamStepView::Fetch { first }, StreamEventView::Framebuffer(data)) => self.fetched(
                first,
                data,
            ),
            (
                StreamStepView::PollOutput { pixels },
                StreamEventView::OutputPolled { polled, writable },
            ) => if polled && writable {
                self.at(StreamStepView::Measure { first: false, pixels })
            } else {
                self.at(StreamStepView::Rest { updated: false })
            },
            (StreamStepView::Measure { first, pixels }, StreamEventView::Size { width, height }) =>
            if pixels.len() < crate::display::rfb::pixel_bytes(width, height) {
                self.not_updated(first)
            } else {
                self.at(
                    StreamStepView::Update {
                        first,
                        pixels,
                        message: crate::display::rfb::update_bytes(pixels, width, height),
                    },
                )
            },
            (StreamStepView::Update { first, pixels, .. }, StreamEventView::Sent(sent)) => if sent {
                StreamView {
                    last: Some(pixels),
                    step: if first {
                        StreamStepView::CheckRunning
                    } else {
                        StreamStepView::Rest { updated: true }
                    },
                }
            } else {
                self.not_updated(first)
            },
            (StreamStepView::Rest { .. }, StreamEventView::Rested) => self.at(
                StreamStepView::CheckRunning,
            ),
            (StreamStepView::Notify, StreamEventView::Notified) => self.at(
                StreamStepView::Finished,
            ),
            _ => self,
        }
    }
}

/// Whether two strings of bytes are the same.
fn same_bytes(a: &[u8], b: &[u8]) -> (same: bool)
    ensures
        same == (a@ == b@),
{
    if a.len() != b.len() {
        return false;
    }
    let mut i: usize = 0;
    while i < a.len()
        invariant
            a@.len() == b@.len(),
            i <= a@.len(),
            forall|j: int| 0 <= j < i ==> a@[j] == b@[j],
        decreases a@.len() - i,
    {
        if a[i] != b[i] {
            return false;
        }
        i = i + 1;
    }
    assert(a@ =~= b@);
    true
}

impl Stream {
    /// A session that was just set up.
    pub fn new() -> (stream: Stream)
        ensures
            stream@ == StreamView::started(),
    {
        Stream { last: None, step: StreamStep::Fetch { first: true } }
    }

    /// What the session asks for next.
    pub fn action(&self) -> (action: StreamAction)
        ensures
            action@ == self@.spec_action(),
            match self.step {
                StreamStep::CheckRunning => action is AskRunning,
                StreamStep::PollInput => action is PollInput,
                StreamStep::Drain => action is DrainInput,
                StreamStep::Fetch { .. } => action is ReadFramebuffer,
                StreamStep::PollOutput { .. } => action is PollOutput,
                StreamStep::Measure { .. } => action is AskSize,
                StreamStep::Update { message, .. } => action matches StreamAction::Send(bytes)
                    && bytes@ == message@,
                StreamStep::Rest { updated } => action == StreamAction::Rest(
                    if updated {
                        40
                    } else {
                        100
                    },
                ),
                StreamStep::Notify => action is Notify,
                StreamStep::Finished => action is Leave,
                StreamStep::Failed(_) => action is GiveUp,
            },
    {
        match &self.step {
            StreamStep::CheckRunning => StreamAction::AskRunning,
            StreamStep::PollInput => StreamAction::PollInput,
            StreamStep::Drain => StreamAction::DrainInput,
            StreamStep::Fetch { .. } => StreamAction::ReadFramebuffer,
            StreamStep::PollOutput { .. } => StreamAction::PollOutput,
            StreamStep::Measure { .. } => StreamAction::AskSize,
            StreamStep::Update { message, .. } => {
                let mut copy: Vec<u8> = Vec::new();
                copy.extend_from_slice(message.as_slice());
                assert(copy@ =~= message@);
                StreamAction::Send(copy)
            },
            StreamStep::Rest { updated } => if *updated {
                StreamAction::Rest(UPDATE_INTERVAL)
            } else {
                StreamAction::Rest(INPUT_INTERVAL)
            },
            StreamStep::Notify => StreamAction::Notify,
            StreamStep::Finished => StreamAction::Leave,
            StreamStep::Failed(_) => StreamAction::GiveUp,
        }
    }

    /// The session after the framebuffer was read.
    fn fetch(last: Option<Vec<u8>>, first: bool, data: Option<Vec<u8>>) -> (next: Stream)
        ensures
            next@ == (StreamView {
                last: bytes_view(last),
                step: StreamStepView::Fetch { first },
            }).fetched(first, bytes_view(data)),
    {
        match data {
            Some(pixels) => {
                if first {
                    return Stream { last, step: StreamStep::Measure { first, pixels } };
                }
                let changed: bool = match &last {
                    Some(seen) => !same_bytes(seen.as_slice(), pixels.as_slice()),
                    None => true,
                };
                if changed {
                    Stream { last, step: StreamStep::PollOutput { pixels } }
                } else {
                    Stream { last, step: StreamStep::Rest { updated: false } }
                }
            },
            None => if first {
                Stream { last, step: StreamStep::CheckRunning }
            } else {
                Stream { last, step: StreamStep::Rest { updated: false } }
            },
        }
    }

    /// The session after an update could not be made or sent.
    fn miss(last: Option<Vec<u8>>, first: bool) -> (next: Stream)
        ensures
            next.last == last,
            next.step@ == (if first {
                StreamStepView::CheckRunning
            } else {
                StreamStepView::Failed(RfbError::UpdateFailed)
            }),
    {
        if first {
            Stream { last, step: StreamStep::CheckRunning }
        } else {
            Stream { last, step: StreamStep::Failed(RfbError::UpdateFailed) }
        }
    }

    /// Takes an answer. One that does not fit the question changes nothing.
    pub fn advance(self, event: StreamEvent) -> (next: Stream)
        requires
            self.step is Measure ==> (event matches StreamEvent::Size { width, height }
                ==> crate::display::rfb::size_fits(width, height)),
        ensures
            next@ == self@.spec_advance(event@),
    {
        let Stream { last, step } = self;
        match (step, event) {
            (StreamStep::CheckRunning, StreamEvent::Running(running)) => {
                if running {
                    Stream { last, step: StreamStep::PollInput }
                } else {
                    Stream { last, step: StreamStep::Notify }
                }
            },
            (StreamStep::PollInput, StreamEvent::InputPolled { polled, hangup, readable }) => {
                if polled && hangup {
                    Stream { last, step: StreamStep::Failed(RfbError::Hangup) }
                } else if polled && readable {
                    Stream { last, step: StreamStep::Drain }
                } else {
                    Stream { last, step: StreamStep::Fetch { first: false } }
                }
            },
            (StreamStep::Drain, StreamEvent::Drained) => {
                Stream { last, step: StreamStep::Fetch { first: false } }
            },
            (StreamStep::Fetch { first }, StreamEvent::Framebuffer(data)) => {
                Stream::fetch(last, first, data)
            },
            (StreamStep::PollOutput { pixels }, StreamEvent::OutputPolled { polled, writable }) => {
                if polled && writable {
                    Stream { last, step: StreamStep::Measure { first: false, pixels } }
                } else {
                    Stream { last, step: StreamStep::Rest { updated: false } }
                }
            },
            (StreamStep::Measure { first, pixels }, StreamEvent::Size { width, height }) => {
                match send_framebuffer_update(pixels.as_slice(), width, height) {
                    Ok(message) => Stream {
                        last,
                        step: StreamStep::Update { first, pixels, message },
                    },
                    Err(_) => Stream::miss(last, first),
                }
            },
            (StreamStep::Update { first, pixels, .. }, StreamEvent::Sent(sent)) => {
                if !sent {
                    Stream::miss(last, first)
                } else if first {
                    Stream { last: Some(pixels), step: StreamStep::CheckRunning }
                } else {
                    Stream { last: Some(pixels), step: StreamStep::Rest { updated: true } }
                }
            },
            (StreamStep::Rest { .. }, StreamEvent::Rested) => {
                Stream { last, step: StreamStep::CheckRunning }
            },
            (StreamStep::Notify, StreamEvent::Notified) => {
                Stream { last, step: StreamStep::Finished }
            },
            (step, _) => Stream { last, step },
        }
    }
}

/// The session after a string of answers.
pub open spec fn stream_after(stream: StreamView, events: Seq<StreamEventView>) -> StreamView
    decreases events.len(),
{
    if events.len() == 0 {
        stream
    } else {
        stream_after(stream, events.drop_last()).spec_advance(events.last())
    }
}

/// `message` is an update that brings `pixels`, for a display of some size.
pub open spec fn brings(message: Seq<u8>, pixels: Seq<u8>) -> bool {
    exists|width: u32, height: u32|
        pixels.len() >= crate::display::rfb::pixel_bytes(width, height) && message
            == #[trigger] crate::display::rfb::update_bytes(pixels, width, height)
}

impl StreamView {
    /// An update that waits to be sent is news to the client, but for the first one, and
    /// its message brings the pixels.
    pub open spec fn wf(self) -> bool {
        match self.step {
            StreamStepView::PollOutput { pixels } => self.last != Some(pixels),
            StreamStepView::Measure { first, pixels } => !first ==> self.last != Some(pixels),
            StreamStepView::Update { first, pixels, message } => {
                &&& !first ==> self.last != Some(pixels)
                &&& brings(message, pixels)
            },
            _ => true,
        }
    }
}

/// An answer leaves updates that are news.
#[verifier::spinoff_prover]
proof fn lemma_advance_keeps_wf(stream: StreamView, event: StreamEventView)
    requires
        stream.wf(),
    ensures
        stream.spec_advance(event).wf(),
{
    let next = stream.spec_advance(event);
    match stream.step {
        StreamStepView::Measure { first, pixels } => match event {
            StreamEventView::Size { width, height } => {
                if pixels.len() >= crate::display::rfb::pixel_bytes(width, height) {
                    let message = crate::display::rfb::update_bytes(pixels, width, height);
                    assert(brings(message, pixels));
                    assert(next.step == StreamStepView::Update { first, pixels, message });
                }
            },
            _ => {
                assert(next == stream);
            },
        },
        StreamStepView::Update { .. } => match event {
            StreamEventView::Sent(_) => {},
            _ => {
                assert(next == stream);
            },
        },
        _ => {},
    }
}

/// In every session, whatever the answers: an update that goes out after the first one
/// brings pixels other than those which the client has seen last.
pub proof fn law_updates_are_news(events: Seq<StreamEventView>)
    ensures
        stream_after(StreamView::started(), events).wf(),
    decreases events.len(),
{
    if events.len() > 0 {
        law_updates_are_news(events.drop_last());
        lemma_advance_keeps_wf(
            stream_after(StreamView::started(), events.drop_last()),
            events.last(),
        );
    }
}

/// What a session remembers as seen changes only when an update was sent, and is then
/// what that update brought.
pub proof fn law_seen_is_what_was_sent(stream: StreamView, event: StreamEventView)
    ensures
        stream.spec_advance(event).last == (match (stream.step, event) {
            (StreamStepView::Update { pixels, .. }, StreamEventView::Sent(true)) => Some(pixels),
            _ => stream.last,
        }),
{
}

/// Pixels that the client has seen last are not sent again.
pub proof fn law_unchanged_pixels_stay(pixels: Seq<u8>)
    ensures
        (StreamView {
            last: Some(pixels),
            step: StreamStepView::Fetch { first: false },
        }).spec_advance(StreamEventView::Framebuffer(Some(pixels))) == (StreamView {
            last: Some(pixels),
            step: StreamStepView::Rest { updated: false },
        }),
{
}

/// Pixels that have changed are sent to a client that takes them, and remembered; the
/// next round comes after the shorter rest.
pub proof fn law_changed_pixels_are_sent(
    last: Option<Seq<u8>>,
    pixels: Seq<u8>,
    width: u32,
    height: u32,
)
    requires
        last != Some(pixels),
        pixels.len() >= crate::display::rfb::pixel_bytes(width, height),
    ensures
        ({
            let fetch = StreamView { last, step: StreamStepView::Fetch { first: false } };
            let update = fetch.spec_advance(
                StreamEventView::Framebuffer(Some(pixels)),
            ).spec_advance(
                StreamEventView::OutputPolled { polled: true, writable: true },
            ).spec_advance(StreamEventView::Size { width, height });
            let rest = update.spec_advance(StreamEventView::Sent(true));
            &&& update.spec_action() == StreamActionView::Send(
                crate::display::rfb::update_bytes(pixels, width, height),
            )
            &&& rest.last == Some(pixels)
            &&& rest.spec_action() == StreamActionView::Rest(UPDATE_INTERVAL as nat)
        }),
{
}

/// Input comes first: in every round it is looked for, and taken in where there is
/// some, before the framebuffer is read.
pub proof fn law_input_comes_first(last: Option<Seq<u8>>, polled: bool, readable: bool)
    ensures
        ({
            let round = StreamView { last, step: StreamStepView::CheckRunning };
            let looked = round.spec_advance(StreamEventView::Running(true));
            let found = looked.spec_advance(
                StreamEventView::InputPolled { polled, hangup: false, readable },
            );
            &&& looked.spec_action() == StreamActionView::PollInput
            &&& polled && readable ==> found.spec_action() == StreamActionView::DrainInput
                && found.spec_advance(StreamEventView::Drained).spec_action()
                == StreamActionView::ReadFramebuffer
            &&& !(polled && readable) ==> found.spec_action() == StreamActionView::ReadFramebuffer
        }),
{
}

/// A connection that reports a hangup or an error is given up, though there be input.
pub proof fn law_hangup_ends_session(last: Option<Seq<u8>>, readable: bool)
    ensures
        (StreamView { last, step: StreamStepView::PollInput }).spec_advance(
            StreamEventView::InputPolled { polled: true, hangup: true, readable },
        ).step == StreamStepView::Failed(RfbError::Hangup),
{
}

/// A session that is not to go on tells whoever wants to know, and ends.
pub proof fn law_stopped_session_notifies(last: Option<Seq<u8>>)
    ensures
        ({
            let round = StreamView { last, step: StreamStepView::CheckRunning };
            let stopped = round.spec_advance(StreamEventView::Running(false));
            &&& stopped.spec_action() == StreamActionView::Notify
            &&& stopped.spec_advance(StreamEventView::Notified).spec_action()
                == StreamActionView::Leave
        }),
{
}

/// The session asked whether it is to go on, and answer `i` was that it is not.
pub open spec fn stopped_at(events: Seq<StreamEventView>, i: int) -> bool {
    &&& 0 <= i < events.len()
    &&& stream_after(StreamView::started(), events.take(i)).spec_action()
        == StreamActionView::AskRunning
    &&& events[i] == StreamEventView::Running(false)
}

/// The session asked to tell that it ends, and answer `i` was that it was told.
pub open spec fn notified_at(events: Seq<StreamEventView>, i: int) -> bool {
    &&& 0 <= i < events.len()
    &&& stream_after(StreamView::started(), events.take(i)).spec_action()
        == StreamActionView::Notify
    &&& events[i] == StreamEventView::Notified
}

/// The session was stopped by answer `p` and no other, and after that whoever wants to
/// know was told by answer `q` and no other.
pub open spec fn ended_by(events: Seq<StreamEventView>, p: int, q: int) -> bool {
    &&& stopped_at(events, p)
    &&& notified_at(events, q)
    &&& p < q
    &&& forall|i: int| #[trigger] stopped_at(events, i) ==> i == p
    &&& forall|i: int| #[trigger] notified_at(events, i) ==> i == q
}

/// What came to pass of the end of a session by the time that it stands at its step.
spec fn end_so_far(events: Seq<StreamEventView>) -> bool {
    match stream_after(StreamView::started(), events).step {
        StreamStepView::Notify => {
            &&& exists|p: int|
                #[trigger] stopped_at(events, p) && forall|i: int|
                    #[trigger] stopped_at(events, i) ==> i == p
            &&& forall|i: int| !(#[trigger] notified_at(events, i))
        },
        StreamStepView::Finished => exists|p: int, q: int| ended_by(events, p, q),
        _ => {
            &&& forall|i: int| !(#[trigger] stopped_at(events, i))
            &&& forall|i: int| !(#[trigger] notified_at(events, i))
        },
    }
}

/// The step of a session tells what came to pass of its end.
#[verifier::spinoff_prover]
proof fn lemma_end_so_far(events: Seq<StreamEventView>)
    ensures
        end_so_far(events),
    decreases events.len(),
{
    if events.len() > 0 {
        let before = events.drop_last();
        let n = before.len() as int;
        lemma_end_so_far(before);
        assert(events.take(n) =~= before);
        assert forall|i: int| 0 <= i < n implies #[trigger] stopped_at(events, i) == stopped_at(
            before,
            i,
        ) && notified_at(events, i) == notified_at(before, i) by {
            assert(events.take(i) =~= before.take(i));
        }
        assert forall|i: int| 0 <= i < n implies #[trigger] notified_at(events, i)
            == notified_at(before, i) by {
            assert(events.take(i) =~= before.take(i));
        }
        let was = stream_after(StreamView::started(), before);
        let now = stream_after(StreamView::started(), events);
        assert(now == was.spec_advance(events[n]));
        assert(stopped_at(events, n) == (was.step is CheckRunning && events[n]
            == StreamEventView::Running(false)));
        assert(notified_at(events, n) == (was.step is Notify && events[n]
            == StreamEventView::Notified));
        assert(forall|i: int| #[trigger] stopped_at(before, i) ==> 0 <= i < n);
        assert(forall|i: int| #[trigger] notified_at(before, i) ==> 0 <= i < n);
        assert(forall|i: int| #[trigger] stopped_at(events, i) ==> 0 <= i <= n);
        assert(forall|i: int| #[trigger] notified_at(events, i) ==> 0 <= i <= n);
        match was.step {
            StreamStepView::Notify => {
                let p = choose|p: int|
                    #[trigger] stopped_at(before, p) && forall|i: int|
                        #[trigger] stopped_at(before, i) ==> i == p;
                assert(stopped_at(events, p));
                if notified_at(events, n) {
                    assert(now.step is Finished);
                    assert(ended_by(events, p, n));
                }
            },
            StreamStepView::Finished => {
                let (p, q) = choose|p: int, q: int| ended_by(before, p, q);
                assert(ended_by(events, p, q));
            },
            StreamStepView::CheckRunning => {
                if stopped_at(events, n) {
                    assert(now.step is Notify);
                }
            },
            _ => {},
        }
    }
}

/// In every session, whatever the answers: one that has ended was stopped once, and
/// after that, once and only once, whoever wants to know was told.
pub proof fn law_finished_session_notified_once(events: Seq<StreamEventView>)
    requires
        stream_after(StreamView::started(), events).step is Finished,
    ensures
        exists|p: int, q: int| ended_by(events, p, q),
{
    lemma_end_so_far(events);
}

/// In every session, whatever the answers: one that was given up was never stopped, and
/// nobody was told of its end.
pub proof fn law_failed_session_never_notified(events: Seq<StreamEventView>, i: int)
    requires
        stream_after(StreamView::started(), events).step is Failed,
    ensures
        !stopped_at(events, i),
        !notified_at(events, i),
{
    lemma_end_so_far(events);
}

/// A session that has ended, or was given up, stays so.
pub proof fn law_session_ends(stream: StreamView, event: StreamEventView)
    requires
        stream.step is Finished || stream.step is Failed,
    ensures
        stream.spec_advance(event) == stream,
{
}

/// A session fails only on a hangup that was reported when it looked for input, or on an
/// update, other than the first, that could not be made or sent.
pub proof fn law_sessions_fail_only_on(stream: StreamView, event: StreamEventView)
    requires
        !(stream.step is Failed),
        stream.spec_advance(event).step is Failed,
    ensures
        match event {
            StreamEventView::InputPolled { polled, hangup, .. } => {
                &&& stream.spec_action() == StreamActionView::PollInput
                &&& polled && hangup
                &&& stream.spec_advance(event).step == StreamStepView::Failed(RfbError::Hangup)
            },
            StreamEventView::Size { width, height } => {
                &&& stream.step matches StreamStepView::Measure { first, pixels } && !first
                    && pixels.len() < 4 * (width * height)
                &&& stream.spec_advance(event).step == StreamStepView::Failed(
                    RfbError::UpdateFailed,
                )
            },
            StreamEventView::Sent(sent) => {
                &&& !sent
                &&& stream.step matches StreamStepView::Update { first, .. } && !first
                &&& stream.spec_advance(event).step == StreamStepView::Failed(
                    RfbError::UpdateFailed,
                )
            },
            _ => false,
        },
{
    if let StreamEventView::Size { width, height } = event {
        crate::display::rfb::law_four_bytes_per_pixel(width, height);
    }
}

/// A client that does not take data now keeps its session: the pixels are dropped, the
/// client counts as having seen what it had seen, and after 100 milliseconds the session
/// asks again whether it is to go on.
pub proof fn law_slow_client_keeps_session(
    last: Option<Seq<u8>>,
    pixels: Seq<u8>,
    polled: bool,
    writable: bool,
)
    requires
        !(polled && writable),
    ensures
        ({
            let stands = StreamView { last, step: StreamStepView::PollOutput { pixels } };
            let rests = stands.spec_advance(StreamEventView::OutputPolled { polled, writable });
            let again = rests.spec_advance(StreamEventView::Rested);
            &&& stands.spec_action() == StreamActionView::PollOutput
            &&& rests.spec_action() == StreamActionView::Rest(100)
            &&& rests.last == last
            &&& again.spec_action() == StreamActionView::AskRunning
            &&& again.last == last
        }),
{
}

/// A round without anything to send: where there is no framebuffer, or the client has seen
/// its pixels last, the session rests for 100 milliseconds and asks again whether it is to
/// go on. The client counts as having seen what it had seen.
pub proof fn law_round_without_news(last: Option<Seq<u8>>, data: Option<Seq<u8>>)
    requires
        data is None || data == last,
    ensures
        ({
            let fetches = StreamView { last, step: StreamStepView::Fetch { first: false } };
            let rests = fetches.spec_advance(StreamEventView::Framebuffer(data));
            let again = rests.spec_advance(StreamEventView::Rested);
            &&& fetches.spec_action() == StreamActionView::ReadFramebuffer
            &&& rests.spec_action() == StreamActionView::Rest(100)
            &&& rests.last == last
            &&& again.spec_action() == StreamActionView::AskRunning
            &&& again.last == last
        }),
{
}

/// A round with news: pixels other than those that the client has seen last are offered to
/// it, sent in one update, sixteen bytes and four for each pixel of the display, and
/// remembered once they are sent. The session then rests for 40 milliseconds and asks again
/// whether it is to go on.
pub proof fn law_round_with_news(
    last: Option<Seq<u8>>,
    pixels: Seq<u8>,
    width: u32,
    height: u32,
)
    requires
        last != Some(pixels),
        pixels.len() >= 4 * (width * height),
    ensures
        ({
            let fetches = StreamView { last, step: StreamStepView::Fetch { first: false } };
            let offers = fetches.spec_advance(StreamEventView::Framebuffer(Some(pixels)));
            let measures = offers.spec_advance(
                StreamEventView::OutputPolled { polled: true, writable: true },
            );
            let sends = measures.spec_advance(StreamEventView::Size { width, height });
            let rests = sends.spec_advance(StreamEventView::Sent(true));
            let again = rests.spec_advance(StreamEventView::Rested);
            &&& offers.spec_action() == StreamActionView::PollOutput
            &&& measures.spec_action() == StreamActionView::AskSize
            &&& sends.spec_action() matches StreamActionView::Send(message) && message.len() == 16
                + 4 * (width * height) && message.skip(16) == pixels.take(4 * (width * height))
            &&& sends.last == last
            &&& rests.spec_action() == StreamActionView::Rest(40)
            &&& rests.last == Some(pixels)
            &&& again.spec_action() == StreamActionView::AskRunning
            &&& again.last == Some(pixels)
        }),
{
    crate::display::rfb::law_four_bytes_per_pixel(width, height);
    crate::display::rfb::law_update_bytes(pixels, width, height);
}

/// The first update goes out without a look at the client, and whatever becomes of it
/// (no framebuffer, too few pixels, not sent) the session goes on. The client counts as
/// having seen it only if it was sent.
pub proof fn law_first_update(pixels: Seq<u8>, width: u32, height: u32, sent: bool)
    ensures
        StreamView::started().last is None,
        StreamView::started().spec_action() == StreamActionView::ReadFramebuffer,
        ({
            let without = StreamView::started().spec_advance(StreamEventView::Framebuffer(None));
            &&& without.spec_action() == StreamActionView::AskRunning
            &&& without.last is None
        }),
        ({
            let measures = StreamView::started().spec_advance(
                StreamEventView::Framebuffer(Some(pixels)),
            );
            let sends = measures.spec_advance(StreamEventView::Size { width, height });
            &&& measures.spec_action() == StreamActionView::AskSize
            &&& pixels.len() < 4 * (width * height) ==> sends.spec_action()
                == StreamActionView::AskRunning && sends.last is None
            &&& pixels.len() >= 4 * (width * height) ==> {
                let goes_on = sends.spec_advance(StreamEventView::Sent(sent));
                &&& sends.spec_action() matches StreamActionView::Send(message) && message.len()
                    == 16 + 4 * (width * height) && message.skip(16) == pixels.take(
                    4 * (width * height),
                )
                &&& goes_on.spec_action() == StreamActionView::AskRunning
                &&& goes_on.last == (if sent {
                    Some(pixels)
                } else {
                    None
                })
            }
        }),
{
    crate::display::rfb::law_four_bytes_per_pixel(width, height);
    if pixels.len() >= 4 * (width * height) {
        crate::display::rfb::law_update_bytes(pixels, width, height);
    }
}

/// An update, other than the first, that could not be made or sent ends the session.
pub proof fn law_failed_update_ends_session(
    last: Option<Seq<u8>>,
    pixels: Seq<u8>,
    message: Seq<u8>,
    width: u32,
    height: u32,
)
    ensures
        (StreamView { last, step: StreamStepView::Update { first: false, pixels, message } })
            .spec_advance(StreamEventView::Sent(false)).step == StreamStepView::Failed(
            RfbError::UpdateFailed,
        ),
        pixels.len() < 4 * (width * height) ==> (StreamView {
            last,
            step: StreamStepView::Measure { first: false, pixels },
        }).spec_advance(StreamEventView::Size { width, height }).step == StreamStepView::Failed(
            RfbError::UpdateFailed,
        ),
{
    crate::display::rfb::law_four_bytes_per_pixel(width, height);
}

/// A session ends only after it was told not to go on and whoever wants to know was told.
pub proof fn law_sessions_end_only_when_told(stream: StreamView, event: StreamEventView)
    ensures
        stream.step !is Finished && stream.spec_advance(event).step is Finished ==> stream.step
            is Notify && event == StreamEventView::Notified,
        stream.step !is Notify && stream.spec_advance(event).step is Notify ==> stream.step
            is CheckRunning && event == StreamEventView::Running(false),
{
}

/// An answer to another question changes nothing.
pub proof fn law_session_ignores_other_answers(stream: StreamView, event: StreamEventView)
    requires
        event is Running ==> stream.spec_action() != StreamActionView::AskRunning,
        event is InputPolled ==> stream.spec_action() != StreamActionView::PollInput,
        event is Drained ==> stream.spec_action() != StreamActionView::DrainInput,
        event is Framebuffer ==> stream.spec_action() != StreamActionView::ReadFramebuffer,
        event is OutputPolled ==> stream.spec_action() != StreamActionView::PollOutput,
        event is Size ==> stream.spec_action() != StreamActionView::AskSize,
        event is Sent ==> !(stream.spec_action() is Send),
        event is Rested ==> !(stream.spec_action() is Rest),
        event is Notified ==> stream.spec_action() != StreamActionView::Notify,
    ensures
        stream.spec_advance(event) == stream,
{
}

/// Where the connection reported nothing, no matter what else is said of it, the session
/// goes on to read the framebuffer; where it reported input, the input is taken in first.
pub proof fn law_reports_count(last: Option<Seq<u8>>, polled: bool, hangup: bool, readable: bool)
    ensures
        ({
            let looks = StreamView { last, step: StreamStepView::PollInput };
            let next = looks.spec_advance(
                StreamEventView::InputPolled { polled, hangup, readable },
            );
            &&& looks.spec_action() == StreamActionView::PollInput
            &&& !polled ==> next.spec_action() == StreamActionView::ReadFramebuffer
            &&& polled && hangup ==> next.spec_action() == StreamActionView::GiveUp
            &&& polled && !hangup && readable ==> next.spec_action()
                == StreamActionView::DrainInput && next.spec_advance(
                StreamEventView::Drained,
            ).step == (StreamStepView::Fetch { first: false })
            &&& polled && !hangup && !readable ==> next.step == (StreamStepView::Fetch {
                first: false,
            })
            &&& !polled ==> next.step == (StreamStepView::Fetch { first: false })
            &&& next.last == last
        }),
{
}

/// A session, and what it is told and asks for, are seen as they are.
pub proof fn law_sessions_as_they_are(stream: Stream, event: StreamEvent, action: StreamAction)
    ensures
        stream@.last is Some <==> stream.last is Some,
        stream.last matches Some(pixels) ==> stream@.last == Some(pixels@),
        match stream.step {
            StreamStep::CheckRunning => stream@.step == StreamStepView::CheckRunning,
            StreamStep::PollInput => stream@.step == StreamStepView::PollInput,
            StreamStep::Drain => stream@.step == StreamStepView::Drain,
            StreamStep::Fetch { first } => stream@.step == (StreamStepView::Fetch { first }),
            StreamStep::PollOutput { pixels } => stream@.step == (StreamStepView::PollOutput {
                pixels: pixels@,
            }),
            StreamStep::Measure { first, pixels } => stream@.step == (StreamStepView::Measure {
                first,
                pixels: pixels@,
            }),
            StreamStep::Update { first, pixels, message } => stream@.step == (
            StreamStepView::Update { first, pixels: pixels@, message: message@ }),
            StreamStep::Rest { updated } => stream@.step == (StreamStepView::Rest { updated }),
            StreamStep::Notify => stream@.step == StreamStepView::Notify,
            StreamStep::Finished => stream@.step == StreamStepView::Finished,
            StreamStep::Failed(error) => stream@.step == StreamStepView::Failed(error),
        },
        match event {
            StreamEvent::Running(running) => event@ == StreamEventView::Running(running),
            StreamEvent::InputPolled { polled, hangup, readable } => event@ == (
            StreamEventView::InputPolled { polled, hangup, readable }),
            StreamEvent::Drained => event@ == StreamEventView::Drained,
            StreamEvent::Framebuffer(data) => match data {
                Some(pixels) => event@ == StreamEventView::Framebuffer(Some(pixels@)),
                None => event@ == StreamEventView::Framebuffer(None),
            },
            StreamEvent::OutputPolled { polled, writable } => event@ == (
            StreamEventView::OutputPolled { polled, writable }),
            StreamEvent::Size { width, height } => event@ == (StreamEventView::Size {
                width,
                height,
            }),
            StreamEvent::Sent(sent) => event@ == StreamEventView::Sent(sent),
            StreamEvent::Rested => event@ == StreamEventView::Rested,
            StreamEvent::Notified => event@ == StreamEventView::Notified,
        },
        match action {
            StreamAction::AskRunning => action@ == StreamActionView::AskRunning,
            StreamAction::PollInput => action@ == StreamActionView::PollInput,
            StreamAction::DrainInput => action@ == StreamActionView::DrainInput,
            StreamAction::ReadFramebuffer => action@ == StreamActionView::ReadFramebuffer,
            StreamAction::PollOutput => action@ == StreamActionView::PollOutput,
            StreamAction::AskSize => action@ == StreamActionView::AskSize,
            StreamAction::Send(message) => action@ == StreamActionView::Send(message@),
            StreamAction::Rest(milliseconds) => action@ == StreamActionView::Rest(
                milliseconds as nat,
            ),
            StreamAction::Notify => action@ == StreamActionView::Notify,
            StreamAction::Leave => action@ == StreamActionView::Leave,
            StreamAction::GiveUp => action@ == StreamActionView::GiveUp,
        },
{
}

} // verus!
