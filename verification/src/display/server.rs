//! The VNC server: where it listens, and how it waits for the display and for clients.

use vstd::prelude::*;

verus! {

/// Where the server listens.
#[derive(Debug)]
pub enum VncListenerType {
    /// At a port of this machine.
    Tcp { port: u16 },
    /// At a socket in the file system.
    Unix { path: String },
}

/// Configuration of the server.
pub struct VncServerConfig {
    pub listener: VncListenerType,
}

impl Clone for VncListenerType {
    fn clone(&self) -> (copy: Self)
        ensures
            copy == *self,
    {
        match self {
            VncListenerType::Tcp { port } => VncListenerType::Tcp { port: *port },
            VncListenerType::Unix { path } => VncListenerType::Unix { path: path.clone() },
        }
    }
}

impl Clone for VncServerConfig {
    fn clone(&self) -> (copy: Self)
        ensures
            copy == *self,
    {
        VncServerConfig { listener: self.listener.clone() }
    }
}

/// Milliseconds between two looks at the display or at the listener.
pub const WAIT_INTERVAL: u64 = 100;

/// Where the server stands, from the moment that it listens.
#[derive(Debug, Clone, Copy, PartialEq, Eq, Structural)]
pub enum Server {
    /// Before a look at the display: is the server to go on?
    CheckWaiting,
    /// Has a framebuffer been set up?
    CheckDisplay,
    /// There is no framebuffer yet.
    RestWaiting,
    /// Before a client is let in: is the server to go on?
    CheckAccepting,
    /// A client is to be let in.
    Accept,
    /// A client was let in.
    Serve,
    /// No client was let in.
    RestAccepting,
    /// The server has stopped.
    Stopped,
}

/// What the server asks for next.
#[derive(Debug, Clone, Copy, PartialEq, Eq, Structural)]
pub enum ServerAction {
    /// Find out whether the server is to go on.
    AskRunning,
    /// Find out whether a framebuffer has been set up.
    AskInitialized,
    /// Rest for that many milliseconds.
    Rest(u64),
    /// Let a client in, without waiting.
    Accept,
    /// Serve the client that was let in, to the end of its session.
    Serve,
    /// Nothing: the server has stopped.
    Leave,
}

/// How the server was answered.
#[derive(Debug, Clone, Copy, PartialEq, Eq, Structural)]
pub enum ServerEvent {
    /// The server is to go on, or not.
    Running(bool),
    /// A framebuffer has been set up, or not.
    Initialized(bool),
    /// The rest is over.
    Rested,
    /// A client was let in, or not.
    Accepted(bool),
    /// The session of a client is over, however it ended.
    Served,
}

impl Server {
    /// What the server asks for next.
    pub open spec fn spec_action(self) -> ServerAction {
        match self {
            Server::CheckWaiting => ServerAction::AskRunning,
            Server::CheckDisplay => ServerAction::AskInitialized,
            Server::RestWaiting => ServerAction::Rest(WAIT_INTERVAL),
            Server::CheckAccepting => ServerAction::AskRunning,
            Server::Accept => ServerAction::Accept,
            Server::Serve => ServerAction::Serve,
            Server::RestAccepting => ServerAction::Rest(WAIT_INTERVAL),
            Server::Stopped => ServerAction::Leave,
        }
    }

    /// Where the server stands after an answer. One that does not fit the question
    /// changes nothing.
    pub open spec fn spec_advance(self, event: ServerEvent) -> Server {
        match (self, event) {
            (Server::CheckWaiting, ServerEvent::Running(running)) => if running {
                Server::CheckDisplay
            } else {
                Server::Stopped
            },
            (Server::CheckDisplay, ServerEvent::Initialized(initialized)) => if initialized {
                Server::CheckAccepting
            } else {
                Server::RestWaiting
            },
            (Server::RestWaiting, ServerEvent::Rested) => Server::CheckWaiting,
            (Server::CheckAccepting, ServerEvent::Running(running)) => if running {
                Server::Accept
            } else {
                Server::Stopped
            },
            (Server::Accept, ServerEvent::Accepted(accepted)) => if accepted {
                Server::Serve
            } else {
                Server::RestAccepting
            },
            (Server::Serve, ServerEvent::Served) => Server::CheckAccepting,
            (Server::RestAccepting, ServerEvent::Rested) => Server::CheckAccepting,
            _ => self,
        }
    }

    /// A server that has begun to listen.
    pub fn new() -> (server: Server)
        ensures
            server == Server::CheckWaiting,
    {
        Server::CheckWaiting
    }

    /// What the server asks for next.
    pub fn action(self) -> (action: ServerAction)
        ensures
            action == self.spec_action(),
    {
        match self {
            Server::CheckWaiting => ServerAction::AskRunning,
            Server::CheckDisplay => ServerAction::AskInitialized,
            Server::RestWaiting => ServerAction::Rest(WAIT_INTERVAL),
            Server::CheckAccepting => ServerAction::AskRunning,
            Server::Accept => ServerAction::Accept,
            Server::Serve => ServerAction::Serve,
            Server::RestAccepting => ServerAction::Rest(WAIT_INTERVAL),
            Server::Stopped => ServerAction::Leave,
        }
    }

    /// Takes an answer. One that does not fit the question changes nothing.
    pub fn advance(self, event: ServerEvent) -> (next: Server)
        ensures
            next == self.spec_advance(event),
    {
        match (self, event) {
            (Server::CheckWaiting, ServerEvent::Running(true)) => Server::CheckDisplay,
            (Server::CheckWaiting, ServerEvent::Running(false)) => Server::Stopped,
            (Server::CheckDisplay, ServerEvent::Initialized(true)) => Server::CheckAccepting,
            (Server::CheckDisplay, ServerEvent::Initialized(false)) => Server::RestWaiting,
            (Server::RestWaiting, ServerEvent::Rested) => Server::CheckWaiting,
            (Server::CheckAccepting, ServerEvent::Running(true)) => Server::Accept,
            (Server::CheckAccepting, ServerEvent::Running(false)) => Server::Stopped,
            (Server::Accept, ServerEvent::Accepted(true)) => Server::Serve,
            (Server::Accept, ServerEvent::Accepted(false)) => Server::RestAccepting,
            (Server::Serve, ServerEvent::Served) => Server::CheckAccepting,
            (Server::RestAccepting, ServerEvent::Rested) => Server::CheckAccepting,
            (server, _) => server,
        }
    }
}

/// Where the server stands after a string of answers.
pub open spec fn server_after(server: Server, events: Seq<ServerEvent>) -> Server
    decreases events.len(),
{
    if events.len() == 0 {
        server
    } else {
        server_after(server, events.drop_last()).spec_advance(events.last())
    }
}

/// The server waits for the display: no client is let in, or served, before a
/// framebuffer has been set up, in whatever order the answers come.
pub proof fn law_no_client_before_display(events: Seq<ServerEvent>)
    requires
        server_after(Server::CheckWaiting, events).spec_action() is Accept || server_after(
            Server::CheckWaiting,
            events,
        ).spec_action() is Serve,
    ensures
        events.contains(ServerEvent::Initialized(true)),
{
    lemma_display_was_there(events);
}

/// Past its wait, the server was told that there is a framebuffer.
proof fn lemma_display_was_there(events: Seq<ServerEvent>)
    ensures
        ({
            let server = server_after(Server::CheckWaiting, events);
            ||| server is CheckWaiting
            ||| server is CheckDisplay
            ||| server is RestWaiting
            ||| server is Stopped
            ||| events.contains(ServerEvent::Initialized(true))
        }),
    decreases events.len(),
{
    if events.len() > 0 {
        let before = events.drop_last();
        lemma_display_was_there(before);
        if before.contains(ServerEvent::Initialized(true)) {
            let i = choose|i: int|
                0 <= i < before.len() && before[i] == ServerEvent::Initialized(true);
            assert(events[i] == ServerEvent::Initialized(true));
        }
        assert(events[events.len() - 1] == events.last());
    }
}

/// The server stops at the next look once it is not to go on, and stays stopped.
pub proof fn law_server_stops(server: Server, event: ServerEvent)
    ensures
        server.spec_action() is AskRunning ==> server.spec_advance(ServerEvent::Running(false))
            is Stopped,
        server is Stopped ==> server.spec_advance(event) is Stopped,
{
}

/// One client is served at a time: while a client is served no other is let in, and
/// after it the server is asked anew whether it is to go on.
pub proof fn law_one_client_at_a_time(event: ServerEvent)
    ensures
        Server::Serve.spec_advance(event) == (if event is Served {
            Server::CheckAccepting
        } else {
            Server::Serve
        }),
        Server::CheckAccepting.spec_action() is AskRunning,
{
}

/// While there is no framebuffer the server looks again every 100 milliseconds, and asks
/// each time whether it is to go on.
pub proof fn law_server_keeps_looking()
    ensures
        ({
            let asked = Server::CheckWaiting.spec_advance(ServerEvent::Running(true));
            let rests = asked.spec_advance(ServerEvent::Initialized(false));
            let again = rests.spec_advance(ServerEvent::Rested);
            &&& asked.spec_action() == ServerAction::AskInitialized
            &&& rests.spec_action() == ServerAction::Rest(100)
            &&& again.spec_action() == ServerAction::AskRunning
            &&& again.spec_advance(ServerEvent::Running(true)).spec_action()
                == ServerAction::AskInitialized
        }),
{
}

/// Once there is a framebuffer the server lets clients in. Where none is there it looks
/// again after 100 milliseconds; one that is there is served, and then the next may come.
/// Each time it asks whether it is to go on, and never again for the framebuffer.
pub proof fn law_server_lets_clients_in(accepted: bool)
    ensures
        ({
            let ready = Server::CheckDisplay.spec_advance(ServerEvent::Initialized(true));
            let looks = ready.spec_advance(ServerEvent::Running(true));
            let after = looks.spec_advance(ServerEvent::Accepted(accepted));
            let again = if accepted {
                after.spec_advance(ServerEvent::Served)
            } else {
                after.spec_advance(ServerEvent::Rested)
            };
            &&& ready.spec_action() == ServerAction::AskRunning
            &&& looks.spec_action() == ServerAction::Accept
            &&& after.spec_action() == (if accepted {
                ServerAction::Serve
            } else {
                ServerAction::Rest(100)
            })
            &&& again == ready
        }),
{
}

/// The server stops only when it asked whether it is to go on, and is not.
pub proof fn law_server_stops_only_when_told(server: Server, event: ServerEvent)
    requires
        server.spec_action() != ServerAction::Leave,
        server.spec_advance(event).spec_action() == ServerAction::Leave,
    ensures
        server.spec_action() == ServerAction::AskRunning,
        event == ServerEvent::Running(false),
{
}

/// An answer to another question changes nothing.
pub proof fn law_server_ignores_other_answers(server: Server, event: ServerEvent)
    requires
        event is Running ==> server.spec_action() != ServerAction::AskRunning,
        event is Initialized ==> server.spec_action() != ServerAction::AskInitialized,
        event is Rested ==> !(server.spec_action() is Rest),
        event is Accepted ==> server.spec_action() != ServerAction::Accept,
        event is Served ==> server.spec_action() != ServerAction::Serve,
    ensures
        server.spec_advance(event) == server,
{
}

} // verus!
