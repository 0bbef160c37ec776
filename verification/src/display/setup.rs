//! How a VNC session is set up: what the server sends and waits for, from the version
//! of the protocol to the description of the display.

use vstd::prelude::*;

use crate::display::rfb::{
    handshake, security, security_offer, server_init, version_message, RfbError, VERSION_LENGTH,
};

verus! {

/// Where the setup of a session stands.
#[derive(Debug)]
pub enum Setup {
    /// The version is to be announced.
    Greet,
    /// The client's version is awaited.
    AwaitVersion,
    /// The security types are to be offered.
    Offer { use_rfb38: bool },
    /// The client's choice among them is awaited.
    AwaitChoice { use_rfb38: bool },
    /// The answer to that choice is to be sent.
    Verdict { use_rfb38: bool, selected: u8 },
    /// The size of the display is to be found out.
    Measure,
    /// The display is to be described.
    Describe { width: u32, height: u32 },
    /// The client's word on sharing the display is awaited. Any will do.
    AwaitShared,
    /// The session is set up.
    Ready,
    /// The session is given up.
    Failed(RfbError),
}

/// What the setup of a session asks for next.
#[derive(Debug)]
pub enum SetupAction {
    /// Send these bytes, all of them.
    Send(Vec<u8>),
    /// Receive that many bytes.
    Receive(usize),
    /// Find out the size of the display.
    AskSize,
    /// Nothing: the session is set up.
    Proceed,
    /// Nothing: the session is given up.
    GiveUp,
}

/// How the setup of a session was answered.
#[derive(Debug)]
pub enum SetupEvent {
    /// The bytes were sent.
    Sent,
    /// These bytes were received.
    Received(Vec<u8>),
    /// The display has this size.
    Size { width: u32, height: u32 },
}

/// What the setup of a session asks for next, with bytes as sequences.
pub enum SetupActionView {
    Send(Seq<u8>),
    Receive(nat),
    AskSize,
    Proceed,
    GiveUp,
}

impl View for SetupAction {
    type V = SetupActionView;

    open spec fn view(&self) -> SetupActionView {
        match self {
            SetupAction::Send(bytes) => SetupActionView::Send(bytes@),
            SetupAction::Receive(count) => SetupActionView::Receive(*count as nat),
            SetupAction::AskSize => SetupActionView::AskSize,
            SetupAction::Proceed => SetupActionView::Proceed,
            SetupAction::GiveUp => SetupActionView::GiveUp,
        }
    }
}

impl Setup {
    /// What the setup asks for next.
    pub open spec fn spec_action(self) -> SetupActionView {
        match self {
            Setup::Greet => SetupActionView::Send(crate::display::rfb::server_version()),
            Setup::AwaitVersion => SetupActionView::Receive(VERSION_LENGTH as nat),
            Setup::Offer { use_rfb38 } => SetupActionView::Send(
                crate::display::rfb::offer_bytes(use_rfb38),
            ),
            Setup::AwaitChoice { .. } => SetupActionView::Receive(1),
            Setup::Verdict { use_rfb38, selected } => SetupActionView::Send(
                crate::display::rfb::verdict_bytes(use_rfb38, selected),
            ),
            Setup::Measure => SetupActionView::AskSize,
            Setup::Describe { width, height } => SetupActionView::Send(
                crate::display::rfb::init_bytes(width, height),
            ),
            Setup::AwaitShared => SetupActionView::Receive(1),
            Setup::Ready => SetupActionView::Proceed,
            Setup::Failed(_) => SetupActionView::GiveUp,
        }
    }

    /// Where the setup stands after an answer. One that does not fit the question, or
    /// brings nothing where something was awaited, changes nothing.
    pub open spec fn spec_advance(self, event: SetupEvent) -> Setup {
        match (self, event) {
            (Setup::Greet, SetupEvent::Sent) => Setup::AwaitVersion,
            (Setup::AwaitVersion, SetupEvent::Received(version)) => {
                if crate::display::rfb::contains_bytes(
                    version@,
                    crate::display::rfb::version_38(),
                ) {
                    Setup::Offer { use_rfb38: true }
                } else if crate::display::rfb::contains_bytes(
                    version@,
                    crate::display::rfb::version_33(),
                ) {
                    Setup::Offer { use_rfb38: false }
                } else {
                    Setup::Failed(RfbError::UnsupportedVersion(version))
                }
            },
            (Setup::Offer { use_rfb38 }, SetupEvent::Sent) => Setup::AwaitChoice { use_rfb38 },
            (Setup::AwaitChoice { use_rfb38 }, SetupEvent::Received(choice)) => {
                if choice@.len() == 0 {
                    self
                } else if crate::display::rfb::verdict_bytes(use_rfb38, choice@[0]).len() == 0 {
                    Setup::judged(use_rfb38, choice@[0])
                } else {
                    Setup::Verdict { use_rfb38, selected: choice@[0] }
                }
            },
            (Setup::Verdict { use_rfb38, selected }, SetupEvent::Sent) => Setup::judged(
                use_rfb38,
                selected,
            ),
            (Setup::Measure, SetupEvent::Size { width, height }) => Setup::Describe {
                width,
                height,
            },
            (Setup::Describe { .. }, SetupEvent::Sent) => Setup::AwaitShared,
            (Setup::AwaitShared, SetupEvent::Received(shared)) => if shared@.len() == 0 {
                self
            } else {
                Setup::Ready
            },
            _ => self,
        }
    }

    /// Where the setup stands once the client's choice is answered.
    pub open spec fn judged(use_rfb38: bool, selected: u8) -> Setup {
        match crate::display::rfb::security_outcome(use_rfb38, selected) {
            Ok(_) => Setup::Measure,
            Err(error) => Setup::Failed(error),
        }
    }

    /// The start of a session.
    pub fn new() -> (setup: Setup)
        ensures
            setup == Setup::Greet,
    {
        Setup::Greet
    }

    /// What the setup asks for next.
    pub fn action(&self) -> (action: SetupAction)
        ensures
            action@ == self.spec_action(),
            self is AwaitVersion ==> action == SetupAction::Receive(12),
            self is AwaitChoice || self is AwaitShared ==> action == SetupAction::Receive(1),
            self is Measure ==> action is AskSize,
            self is Ready ==> action is Proceed,
            self is Failed ==> action is GiveUp,
            self is Greet || self is Offer || self is Verdict || self is Describe ==> action is Send,
    {
        match self {
            Setup::Greet => SetupAction::Send(version_message()),
            Setup::AwaitVersion => SetupAction::Receive(VERSION_LENGTH),
            Setup::Offer { use_rfb38 } => SetupAction::Send(security_offer(*use_rfb38)),
            Setup::AwaitChoice { .. } => SetupAction::Receive(1),
            Setup::Verdict { use_rfb38, selected } => SetupAction::Send(
                security(*use_rfb38, *selected).0,
            ),
            Setup::Measure => SetupAction::AskSize,
            Setup::Describe { width, height } => SetupAction::Send(server_init(*width, *height)),
            Setup::AwaitShared => SetupAction::Receive(1),
            Setup::Ready => SetupAction::Proceed,
            Setup::Failed(_) => SetupAction::GiveUp,
        }
    }

    /// Takes an answer. One that does not fit the question, or brings nothing where
    /// something was awaited, changes nothing.
    pub fn advance(self, event: SetupEvent) -> (next: Setup)
        ensures
            next == self.spec_advance(event),
    {
        match (self, event) {
            (Setup::Greet, SetupEvent::Sent) => Setup::AwaitVersion,
            (Setup::AwaitVersion, SetupEvent::Received(version)) => match handshake(version) {
                Ok(use_rfb38) => Setup::Offer { use_rfb38 },
                Err(error) => Setup::Failed(error),
            },
            (Setup::Offer { use_rfb38 }, SetupEvent::Sent) => Setup::AwaitChoice { use_rfb38 },
            (Setup::AwaitChoice { use_rfb38 }, SetupEvent::Received(choice)) => {
                if choice.len() == 0 {
                    return Setup::AwaitChoice { use_rfb38 };
                }
                let selected: u8 = choice[0];
                let (answer, outcome) = security(use_rfb38, selected);
                if answer.len() > 0 {
                    return Setup::Verdict { use_rfb38, selected };
                }
                match outcome {
                    Ok(_) => Setup::Measure,
                    Err(error) => Setup::Failed(error),
                }
            },
            (Setup::Verdict { use_rfb38, selected }, SetupEvent::Sent) => match security(
                use_rfb38,
                selected,
            ).1 {
                Ok(_) => Setup::Measure,
                Err(error) => Setup::Failed(error),
            },
            (Setup::Measure, SetupEvent::Size { width, height }) => Setup::Describe {
                width,
                height,
            },
            (Setup::Describe { .. }, SetupEvent::Sent) => Setup::AwaitShared,
            (Setup::AwaitShared, SetupEvent::Received(shared)) => {
                if shared.len() == 0 {
                    Setup::AwaitShared
                } else {
                    Setup::Ready
                }
            },
            (setup, _) => setup,
        }
    }
}

/// Where the setup stands after a string of answers.
pub open spec fn setup_after(setup: Setup, events: Seq<SetupEvent>) -> Setup
    decreases events.len(),
{
    if events.len() == 0 {
        setup
    } else {
        setup_after(setup, events.drop_last()).spec_advance(events.last())
    }
}

/// The bytes that were sent in the course of a string of answers.
pub open spec fn setup_sent(setup: Setup, events: Seq<SetupEvent>) -> Seq<u8>
    decreases events.len(),
{
    if events.len() == 0 {
        Seq::empty()
    } else {
        let before = setup_sent(setup, events.drop_last());
        match (setup_after(setup, events.drop_last()).spec_action(), events.last()) {
            (SetupActionView::Send(bytes), SetupEvent::Sent) => before + bytes,
            _ => before,
        }
    }
}

/// Everything that the server sends to a client before the session is ready: the
/// version, the offer of security types in version 3.8, success, and the description
/// of the display.
pub open spec fn full_greeting(width: u32, height: u32) -> Seq<u8> {
    crate::display::rfb::server_version() + crate::display::rfb::offer_bytes(true)
        + crate::display::rfb::verdict_bytes(true, 1) + crate::display::rfb::init_bytes(
        width,
        height,
    )
}

/// The bytes that were sent when the setup stands at `setup`.
spec fn sent_so_far(setup: Setup, sent: Seq<u8>) -> bool {
    let version = crate::display::rfb::server_version();
    match setup {
        Setup::Greet => sent == Seq::<u8>::empty(),
        Setup::AwaitVersion => sent == version,
        Setup::Offer { .. } => sent == version,
        Setup::AwaitChoice { use_rfb38 } => sent == version + crate::display::rfb::offer_bytes(
            use_rfb38,
        ),
        Setup::Verdict { use_rfb38, selected } => sent == version
            + crate::display::rfb::offer_bytes(use_rfb38) && !(selected == 1 && !use_rfb38),
        Setup::Measure => sent == version + crate::display::rfb::offer_bytes(true)
            + crate::display::rfb::verdict_bytes(true, 1),
        Setup::Describe { .. } => sent == version + crate::display::rfb::offer_bytes(true)
            + crate::display::rfb::verdict_bytes(true, 1),
        Setup::AwaitShared => exists|width: u32, height: u32| sent == full_greeting(width, height),
        Setup::Ready => exists|width: u32, height: u32| sent == full_greeting(width, height),
        Setup::Failed(_) => true,
    }
}

/// The place where the setup stands tells what was sent.
proof fn lemma_sent_so_far(events: Seq<SetupEvent>)
    ensures
        sent_so_far(setup_after(Setup::Greet, events), setup_sent(Setup::Greet, events)),
    decreases events.len(),
{
    if events.len() > 0 {
        let before = events.drop_last();
        lemma_sent_so_far(before);
        let setup = setup_after(Setup::Greet, before);
        let sent = setup_sent(Setup::Greet, before);
        if let Setup::Greet = setup {
            assert(sent + crate::display::rfb::server_version()
                =~= crate::display::rfb::server_version());
        }
        if let Setup::Describe { width, height } = setup {
            assert(sent + crate::display::rfb::init_bytes(width, height) == full_greeting(
                width,
                height,
            ));
        }
    }
}

/// Whatever a client does, and in whatever order: a session that is ready has been sent
/// the full greeting, in version 3.8, and nothing else. In version 3.3 no session gets
/// ready.
pub proof fn law_ready_sessions_were_greeted(events: Seq<SetupEvent>)
    requires
        setup_after(Setup::Greet, events) is Ready,
    ensures
        exists|width: u32, height: u32|
            setup_sent(Setup::Greet, events) == full_greeting(width, height),
{
    lemma_sent_so_far(events);
}

/// A client that names version 3.8, chooses to go without authentication and says
/// whether it shares the display gets a session, and the greeting tells the size that
/// the display has.
pub proof fn law_client_gets_session(
    version: Vec<u8>,
    choice: Vec<u8>,
    width: u32,
    height: u32,
    shared: Vec<u8>,
)
    requires
        crate::display::rfb::contains_bytes(version@, crate::display::rfb::version_38()),
        choice@ == seq![1u8],
        shared@.len() == 1,
    ensures
        ({
            let events = seq![
                SetupEvent::Sent,
                SetupEvent::Received(version),
                SetupEvent::Sent,
                SetupEvent::Received(choice),
                SetupEvent::Sent,
                SetupEvent::Size { width, height },
                SetupEvent::Sent,
                SetupEvent::Received(shared),
            ];
            &&& setup_after(Setup::Greet, events) == Setup::Ready
            &&& setup_sent(Setup::Greet, events) == full_greeting(width, height)
        }),
{
    let e1 = seq![SetupEvent::Sent];
    let e2 = e1.push(SetupEvent::Received(version));
    let e3 = e2.push(SetupEvent::Sent);
    let e4 = e3.push(SetupEvent::Received(choice));
    let e5 = e4.push(SetupEvent::Sent);
    let e6 = e5.push(SetupEvent::Size { width, height });
    let e7 = e6.push(SetupEvent::Sent);
    let e8 = e7.push(SetupEvent::Received(shared));
    let e0 = Seq::<SetupEvent>::empty();
    assert(setup_after(Setup::Greet, e0) == Setup::Greet);
    assert(setup_sent(Setup::Greet, e0) == Seq::<u8>::empty());
    assert(e1.drop_last() =~= e0);
    assert(e2.drop_last() =~= e1);
    assert(e3.drop_last() =~= e2);
    assert(e4.drop_last() =~= e3);
    assert(e5.drop_last() =~= e4);
    assert(e6.drop_last() =~= e5);
    assert(e7.drop_last() =~= e6);
    assert(e8.drop_last() =~= e7);
    assert(setup_after(Setup::Greet, e1) == Setup::AwaitVersion);
    assert(setup_sent(Setup::Greet, e1) =~= crate::display::rfb::server_version());
    assert(setup_after(Setup::Greet, e2) == Setup::Offer { use_rfb38: true });
    assert(setup_after(Setup::Greet, e3) == Setup::AwaitChoice { use_rfb38: true });
    assert(setup_after(Setup::Greet, e4) == Setup::Verdict { use_rfb38: true, selected: 1 });
    assert(setup_after(Setup::Greet, e5) == Setup::Measure);
    assert(setup_after(Setup::Greet, e6) == Setup::Describe { width, height });
    assert(setup_after(Setup::Greet, e7) == Setup::AwaitShared);
    assert(setup_after(Setup::Greet, e8) == Setup::Ready);
    let version_sent = crate::display::rfb::server_version();
    let offer_sent = version_sent + crate::display::rfb::offer_bytes(true);
    let verdict_sent = offer_sent + crate::display::rfb::verdict_bytes(true, 1);
    assert(setup_sent(Setup::Greet, e2) == version_sent);
    assert(setup_sent(Setup::Greet, e3) == offer_sent);
    assert(setup_sent(Setup::Greet, e4) == offer_sent);
    assert(setup_sent(Setup::Greet, e5) == verdict_sent);
    assert(setup_sent(Setup::Greet, e6) == verdict_sent);
    assert(setup_sent(Setup::Greet, e7) == full_greeting(width, height));
    assert(setup_sent(Setup::Greet, e8) == full_greeting(width, height));
    assert(e8 =~= seq![
        SetupEvent::Sent,
        SetupEvent::Received(version),
        SetupEvent::Sent,
        SetupEvent::Received(choice),
        SetupEvent::Sent,
        SetupEvent::Size { width, height },
        SetupEvent::Sent,
        SetupEvent::Received(shared),
    ]);
}

/// A client that chooses a security type which was not offered is told so, in either
/// version, and gets no session.
pub proof fn law_wrong_choice_is_answered(use_rfb38: bool, choice: Vec<u8>)
    requires
        choice@.len() == 1,
        choice@[0] != 1,
    ensures
        ({
            let asked = (Setup::AwaitChoice { use_rfb38 }).spec_advance(SetupEvent::Received(choice));
            &&& asked.spec_action() == SetupActionView::Send(
                crate::bytes::be_bytes(1, 4) + crate::display::rfb::rejection_reason(),
            )
            &&& asked.spec_advance(SetupEvent::Sent) == Setup::Failed(
                RfbError::InvalidSecurityType,
            )
        }),
{
}

/// A client that stays with version 3.3 gets no session, and no answer, though it
/// chooses the type that was offered.
pub proof fn law_old_version_is_refused(choice: Vec<u8>)
    requires
        choice@ == seq![1u8],
    ensures
        (Setup::AwaitChoice { use_rfb38: false }).spec_advance(SetupEvent::Received(choice))
            == Setup::Failed(RfbError::AuthenticationUnsupported),
{
}

/// A session that is ready, or was given up, stays so.
pub proof fn law_setup_ends(setup: Setup, event: SetupEvent)
    requires
        setup is Ready || setup is Failed,
    ensures
        setup.spec_advance(event) == setup,
{
}

/// What the setup asks for at each step, letter by letter.
pub proof fn law_setup_questions(use_rfb38: bool, width: u32, height: u32, error: RfbError)
    ensures
        Setup::Greet.spec_action() == SetupActionView::Send(
            seq![0x52u8, 0x46, 0x42, 0x20, 0x30, 0x30, 0x33, 0x2E, 0x30, 0x30, 0x38, 0x0A],
        ),
        Setup::AwaitVersion.spec_action() == SetupActionView::Receive(12),
        (Setup::Offer { use_rfb38 }).spec_action() == SetupActionView::Send(
            if use_rfb38 {
                seq![1u8, 1]
            } else {
                seq![0u8, 0, 0, 1]
            },
        ),
        (Setup::AwaitChoice { use_rfb38 }).spec_action() == SetupActionView::Receive(1),
        Setup::Measure.spec_action() == SetupActionView::AskSize,
        (Setup::Describe { width, height }).spec_action() == SetupActionView::Send(
            crate::display::rfb::init_bytes(width, height),
        ),
        Setup::AwaitShared.spec_action() == SetupActionView::Receive(1),
        Setup::Ready.spec_action() == SetupActionView::Proceed,
        Setup::Failed(error).spec_action() == SetupActionView::GiveUp,
{
    crate::bytes::law_four_bytes(0, 0, 0, 1);
}

/// The text of a version is somewhere in what the client sent.
pub open spec fn names(sent: Seq<u8>, text: Seq<u8>) -> bool {
    exists|at: int|
        0 <= at <= sent.len() - text.len() && #[trigger] sent.subrange(at, at + text.len()) == text
}

/// The client's version decides: 3.8 where it says `003.008`, else 3.3 where it says
/// `003.003`, and else the client is refused for what it said.
pub proof fn law_version_decides(version: Vec<u8>)
    ensures
        ({
            let next = Setup::AwaitVersion.spec_advance(SetupEvent::Received(version));
            if names(version@, seq![0x30u8, 0x30, 0x33, 0x2E, 0x30, 0x30, 0x38]) {
                next == (Setup::Offer { use_rfb38: true })
            } else if names(version@, seq![0x30u8, 0x30, 0x33, 0x2E, 0x30, 0x30, 0x33]) {
                next == (Setup::Offer { use_rfb38: false })
            } else {
                next == Setup::Failed(RfbError::UnsupportedVersion(version))
            }
        }),
{
    let new = seq![0x30u8, 0x30, 0x33, 0x2E, 0x30, 0x30, 0x38];
    let older = seq![0x30u8, 0x30, 0x33, 0x2E, 0x30, 0x30, 0x33];
    assert(crate::display::rfb::version_38() =~= new);
    assert(crate::display::rfb::version_33() =~= older);
    assert(names(version@, new) == crate::display::rfb::contains_bytes(version@, new));
    assert(names(version@, older) == crate::display::rfb::contains_bytes(version@, older));
}

/// The client's choice decides. The type that was offered leads on in version 3.8, with
/// four zero bytes, and ends the session in version 3.3. Any other type ends it, with the
/// number 1 and the reason, in both.
pub proof fn law_choice_decides(use_rfb38: bool, choice: Vec<u8>)
    requires
        choice@.len() == 1,
    ensures
        ({
            let answered = (Setup::AwaitChoice { use_rfb38 }).spec_advance(
                SetupEvent::Received(choice),
            );
            if choice@[0] != 1 {
                &&& answered.spec_action() == SetupActionView::Send(seq![
            0u8, 0, 0, 1, 0x49, 0x6E, 0x76, 0x61, 0x6C, 0x69, 0x64, 0x20, 0x73, 0x65, 0x63, 0x75,
            0x72, 0x69, 0x74, 0x79, 0x20, 0x74, 0x79, 0x70, 0x65,
        ])
                &&& answered.spec_advance(SetupEvent::Sent) == Setup::Failed(
                    RfbError::InvalidSecurityType,
                )
            } else if use_rfb38 {
                &&& answered.spec_action() == SetupActionView::Send(seq![0u8, 0, 0, 0])
                &&& answered.spec_advance(SetupEvent::Sent) == Setup::Measure
            } else {
                answered == Setup::Failed(RfbError::AuthenticationUnsupported)
            }
        }),
{
    crate::display::rfb::law_verdicts(use_rfb38, choice@[0]);
}

/// The display is described with the size that it has, and after any word of the client on
/// sharing it the session is ready.
pub proof fn law_display_is_described(width: u32, height: u32, shared: Vec<u8>)
    requires
        shared@.len() == 1,
    ensures
        Setup::Measure.spec_advance(SetupEvent::Size { width, height }) == (Setup::Describe {
            width,
            height,
        }),
        (Setup::Describe { width, height }).spec_advance(SetupEvent::Sent) == Setup::AwaitShared,
        Setup::AwaitShared.spec_advance(SetupEvent::Received(shared)) == Setup::Ready,
        Setup::Greet.spec_advance(SetupEvent::Sent) == Setup::AwaitVersion,
        (Setup::Offer { use_rfb38: true }).spec_advance(SetupEvent::Sent) == (Setup::AwaitChoice {
            use_rfb38: true,
        }),
        (Setup::Offer { use_rfb38: false }).spec_advance(SetupEvent::Sent) == (
        Setup::AwaitChoice { use_rfb38: false }),
{
}

/// Everything that a client which gets a session was sent, letter by letter: the version,
/// one security type, success, and the description of the display.
pub proof fn law_greeting_letter_by_letter(width: u32, height: u32)
    ensures
        full_greeting(width, height) == seq![
            0x52u8, 0x46, 0x42, 0x20, 0x30, 0x30, 0x33, 0x2E, 0x30, 0x30, 0x38, 0x0A, 1, 1, 0, 0, 0,
            0,
        ] + crate::display::rfb::init_bytes(width, height),
{
    crate::display::rfb::law_verdicts(true, 1);
    assert(full_greeting(width, height) =~= seq![
        0x52u8, 0x46, 0x42, 0x20, 0x30, 0x30, 0x33, 0x2E, 0x30, 0x30, 0x38, 0x0A, 1, 1, 0, 0, 0, 0,
    ] + crate::display::rfb::init_bytes(width, height));
}

/// An answer to another question changes nothing: what was sent matters only where
/// something was to be sent, what was received only where something was awaited, and the
/// size only where it was asked for.
pub proof fn law_setup_ignores_other_answers(setup: Setup, event: SetupEvent)
    requires
        event is Sent ==> !(setup.spec_action() is Send),
        event is Received ==> !(setup.spec_action() is Receive),
        event is Size ==> !(setup.spec_action() is AskSize),
    ensures
        setup.spec_advance(event) == setup,
{
}

/// What the setup asks for is seen as it is.
pub proof fn law_setup_actions_as_they_are(action: SetupAction)
    ensures
        match action {
            SetupAction::Send(bytes) => action@ == SetupActionView::Send(bytes@),
            SetupAction::Receive(count) => action@ == SetupActionView::Receive(count as nat),
            SetupAction::AskSize => action@ == SetupActionView::AskSize,
            SetupAction::Proceed => action@ == SetupActionView::Proceed,
            SetupAction::GiveUp => action@ == SetupActionView::GiveUp,
        },
{
}

/// An answer that brings nothing where the choice or the word on sharing was awaited is
/// still awaited.
pub proof fn law_empty_answers_are_awaited(use_rfb38: bool, nothing: Vec<u8>)
    requires
        nothing@.len() == 0,
    ensures
        (Setup::AwaitChoice { use_rfb38 }).spec_advance(SetupEvent::Received(nothing)) == (
        Setup::AwaitChoice { use_rfb38 }),
        Setup::AwaitShared.spec_advance(SetupEvent::Received(nothing)) == Setup::AwaitShared,
{
}

} // verus!
