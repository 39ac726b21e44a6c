//! The decisions of the browser WebSocket client port: when it opens a
//! connection, what it does when the connection arrives or goes down, when
//! it starts the tasks that read from and write to the socket, and what those
//! tasks do with each thing they see.
use vstd::prelude::*;

verus! {

/// The state of a client port.
#[derive(Debug, Clone, Copy, PartialEq, Eq, Structural)]
pub struct PortFlags {
    /// The connection is open.
    pub started: bool,
    /// A connection is being opened.
    pub starting: bool,
    /// A connection has been open at least once.
    pub first_started: bool,
    /// The port is its connection's main port.
    pub main_port: bool,
    /// The server has accepted the port.
    pub authenticated: bool,
    /// The task that reads from the socket runs.
    pub listening_server: bool,
    /// The task that writes to the socket runs.
    pub sending_server_message: bool,
}

/// The flags of a port that has done nothing yet.
pub open spec fn initial_flags() -> PortFlags {
    PortFlags {
        started: false,
        starting: false,
        first_started: false,
        main_port: false,
        authenticated: false,
        listening_server: false,
        sending_server_message: false,
    }
}

/// A port never counts as open and as being opened at once.
pub open spec fn consistent(f: PortFlags) -> bool {
    !(f.started && f.starting)
}

/// Starting: a port that is neither open nor being opened begins to open a
/// connection (the result is `true`: open one now), and forgets its reading
/// and writing tasks; any other port is left as it is.
pub open spec fn start_step(f: PortFlags) -> (PortFlags, bool) {
    if f.started || f.starting {
        (f, false)
    } else {
        (PortFlags { starting: true, listening_server: false, sending_server_message: false, ..f }, true)
    }
}

/// Asking whether the port is open, where `socket_arrived` tells whether a
/// newly opened socket was waiting: the result is (open, opened just now).
pub open spec fn started_step(f: PortFlags, socket_arrived: bool) -> (PortFlags, (bool, bool)) {
    if f.started {
        (f, (true, false))
    } else if socket_arrived {
        (PortFlags { started: true, starting: false, first_started: true, ..f }, (true, true))
    } else {
        (f, (false, false))
    }
}

/// Asking whether the connection went down, where `down` holds the report
/// of a connection that went down (with whether one had been open before it),
/// if one came: the result is (went down, had been open before).
pub open spec fn disconnected_step(f: PortFlags, down: Option<bool>) -> (PortFlags, (bool, bool)) {
    match down {
        Some(was_started) => (
            PortFlags {
                started: false,
                starting: false,
                listening_server: false,
                sending_server_message: false,
                authenticated: false,
                ..f
            },
            (true, was_started),
        ),
        None => (f, (false, f.first_started)),
    }
}

/// Listening: the reading task starts (the result is `true`) when it does
/// not run yet and the socket's reading half is there.
pub open spec fn listen_step(f: PortFlags, has_stream: bool) -> (PortFlags, bool) {
    if !f.listening_server && has_stream {
        (PortFlags { listening_server: true, ..f }, true)
    } else {
        (f, false)
    }
}

/// Sending: after a message is queued, the writing task starts (the result is
/// `true`) when it does not run yet and the socket's writing half is there.
pub open spec fn send_step(f: PortFlags, has_sink: bool) -> (PortFlags, bool) {
    if !f.sending_server_message && has_sink {
        (PortFlags { sending_server_message: true, ..f }, true)
    } else {
        (f, false)
    }
}

/// The state of a browser WebSocket client port.
pub struct WasmWebSocketPortState {
    flags: PortFlags,
}

impl View for WasmWebSocketPortState {
    type V = PortFlags;

    closed spec fn view(&self) -> PortFlags {
        self.flags
    }
}

impl WasmWebSocketPortState {
    #[verifier::type_invariant]
    spec fn never_open_and_opening(self) -> bool {
        consistent(self.flags)
    }

    /// The state of a new port: nothing started, nothing running.
    pub fn new() -> (state: Self)
        ensures
            state@ == initial_flags(),
    {
        WasmWebSocketPortState {
            flags: PortFlags {
                started: false,
                starting: false,
                first_started: false,
                main_port: false,
                authenticated: false,
                listening_server: false,
                sending_server_message: false,
            },
        }
    }

    /// The current flags.
    pub fn flags(&self) -> (flags: PortFlags)
        ensures
            flags == self@,
            consistent(flags),
    {
        proof {
            use_type_invariant(self);
        }
        self.flags
    }

    /// Starts opening a connection; see [`start_step`]. When the result is
    /// `true` the caller opens the socket.
    pub fn start(&mut self) -> (open_now: bool)
        ensures
            (final(self)@, open_now) == start_step(old(self)@),
            open_now == (!old(self)@.started && !old(self)@.starting),
            consistent(final(self)@),
    {
        proof {
            use_type_invariant(&*self);
        }
        let f = self.flags;
        if f.started || f.starting {
            return false;
        }
        self.flags = PortFlags {
            starting: true,
            listening_server: false,
            sending_server_message: false,
            ..f
        };
        true
    }

    /// Whether the socket must be asked for a newly opened connection before
    /// [`Self::started`]: only while the port is not open.
    pub fn needs_socket_poll(&self) -> (poll: bool)
        ensures
            poll == !self@.started,
    {
        !self.flags.started
    }

    /// Whether the port is open, and whether it opened just now; see
    /// [`started_step`]. When the second component is `true` the caller
    /// splits the new socket into its reading and writing halves.
    pub fn started(&mut self, socket_arrived: bool) -> (result: (bool, bool))
        ensures
            (final(self)@, result) == started_step(old(self)@, socket_arrived),
            result == (old(self)@.started || socket_arrived, !old(self)@.started && socket_arrived),
            consistent(final(self)@),
    {
        proof {
            use_type_invariant(&*self);
        }
        let f = self.flags;
        if f.started {
            (true, false)
        } else if socket_arrived {
            self.flags = PortFlags { started: true, starting: false, first_started: true, ..f };
            (true, true)
        } else {
            (false, false)
        }
    }

    /// Whether the connection went down; see [`disconnected_step`]. When the
    /// first component is `true` the caller stops the writing task and drops
    /// both halves of the socket.
    pub fn disconnected(&mut self, down: Option<bool>) -> (result: (bool, bool))
        ensures
            (final(self)@, result) == disconnected_step(old(self)@, down),
            result == (down is Some, match down {
                Some(was_started) => was_started,
                None => old(self)@.first_started,
            }),
            consistent(final(self)@),
    {
        proof {
            use_type_invariant(&*self);
        }
        let f = self.flags;
        match down {
            Some(was_started) => {
                self.flags = PortFlags {
                    started: false,
                    starting: false,
                    listening_server: false,
                    sending_server_message: false,
                    authenticated: false,
                    ..f
                };
                (true, was_started)
            },
            None => (false, f.first_started),
        }
    }

    /// Starts the reading task if it is due; see [`listen_step`].
    pub fn listen_to_server(&mut self, has_stream: bool) -> (spawn: bool)
        ensures
            (final(self)@, spawn) == listen_step(old(self)@, has_stream),
            spawn == (!old(self)@.listening_server && has_stream),
            consistent(final(self)@),
    {
        proof {
            use_type_invariant(&*self);
        }
        let f = self.flags;
        if f.listening_server {
            return false;
        }
        if has_stream {
            self.flags = PortFlags { listening_server: true, ..f };
            true
        } else {
            false
        }
    }

    /// Starts the writing task if it is due after a message was queued; see
    /// [`send_step`].
    pub fn send_message_for_server(&mut self, has_sink: bool) -> (spawn: bool)
        ensures
            (final(self)@, spawn) == send_step(old(self)@, has_sink),
            spawn == (!old(self)@.sending_server_message && has_sink),
            consistent(final(self)@),
    {
        proof {
            use_type_invariant(&*self);
        }
        let f = self.flags;
        if !f.sending_server_message && has_sink {
            self.flags = PortFlags { sending_server_message: true, ..f };
            true
        } else {
            false
        }
    }

    /// Makes the port its connection's main port.
    pub fn as_main_port(&mut self) -> (done: bool)
        ensures
            done,
            final(self)@ == (PortFlags { main_port: true, ..old(self)@ }),
    {
        proof {
            use_type_invariant(&*self);
        }
        let f = self.flags;
        self.flags = PortFlags { main_port: true, ..f };
        true
    }

    /// Whether the port is its connection's main port.
    pub fn is_main_port(&self) -> (main: bool)
        ensures
            main == self@.main_port,
    {
        self.flags.main_port
    }

    /// Records that the server accepted the port.
    pub fn authenticate_port(&mut self)
        ensures
            final(self)@ == (PortFlags { authenticated: true, ..old(self)@ }),
    {
        proof {
            use_type_invariant(&*self);
        }
        let f = self.flags;
        self.flags = PortFlags { authenticated: true, ..f };
    }

    /// Whether the server accepted the port.
    pub fn is_port_authenticated(&self) -> (authenticated: bool)
        ensures
            authenticated == self@.authenticated,
    {
        self.flags.authenticated
    }
}

/// What the reading task takes from the socket.
#[derive(Debug, Clone, Copy, PartialEq, Eq, Structural)]
pub enum StreamEvent {
    /// A binary message.
    Bytes,
    /// A text message.
    Text,
    /// An error.
    Failed,
    /// The end of the stream: the socket closed.
    Ended,
}

/// What the reading task does with it.
#[derive(Debug, Clone, Copy, PartialEq, Eq, Structural)]
pub enum ReaderAction {
    /// Hand the bytes to the port and go on reading.
    Forward,
    /// Warn that text arrived, drop it and go on reading.
    WarnText,
    /// Report that the connection went down, and stop reading.
    ReportDownAndStop,
}

/// Decides what the reading task does with what it took from the socket:
/// binary messages go to the port, text is dropped, and an error or the end
/// of the stream ends the connection.
pub fn reader_step(event: StreamEvent) -> (action: ReaderAction)
    ensures
        event == StreamEvent::Bytes ==> action == ReaderAction::Forward,
        event == StreamEvent::Text ==> action == ReaderAction::WarnText,
        event == StreamEvent::Failed ==> action == ReaderAction::ReportDownAndStop,
        event == StreamEvent::Ended ==> action == ReaderAction::ReportDownAndStop,
{
    match event {
        StreamEvent::Bytes => ReaderAction::Forward,
        StreamEvent::Text => ReaderAction::WarnText,
        StreamEvent::Failed => ReaderAction::ReportDownAndStop,
        StreamEvent::Ended => ReaderAction::ReportDownAndStop,
    }
}

/// What the writing task does next.
#[derive(Debug, Clone, Copy, PartialEq, Eq, Structural)]
pub enum SenderAction {
    /// Stop: the port asked it to.
    Stop,
    /// Send the queued message and go on.
    Send,
    /// Nothing is queued: look again.
    Wait,
}

/// Decides what the writing task does next, where `stop_requested` tells
/// whether the port asked it to stop and `has_queued` whether a message is
/// waiting (asked only when no stop was requested): a stop request comes
/// first, then a queued message.
pub fn sender_step(stop_requested: bool, has_queued: bool) -> (action: SenderAction)
    ensures
        stop_requested ==> action == SenderAction::Stop,
        !stop_requested && has_queued ==> action == SenderAction::Send,
        !stop_requested && !has_queued ==> action == SenderAction::Wait,
{
    if stop_requested {
        SenderAction::Stop
    } else if has_queued {
        SenderAction::Send
    } else {
        SenderAction::Wait
    }
}

/// What each step answers, from any state of the port: a start opens a
/// connection exactly when none is open or being opened; asking whether the
/// port is open says it is when it was or a socket arrived, and that it opened
/// just now exactly when a socket arrived while it was not open (on every
/// connection, not only the first), which leaves it open, no longer opening,
/// and remembering that it has been open; a report that the connection went
/// down is passed on with its own flag, and without one the port says whether
/// it has ever been open; a task starts exactly when it does not run and its
/// socket half is there.
pub proof fn lemma_step_answers(
    f: PortFlags,
    socket_arrived: bool,
    down: Option<bool>,
    has_stream: bool,
    has_sink: bool,
)
    ensures
        start_step(f).1 == (!f.started && !f.starting),
        started_step(f, socket_arrived).1 == (f.started || socket_arrived, !f.started
            && socket_arrived),
        !f.started && socket_arrived ==> ({
            let g = started_step(f, socket_arrived).0;
            g.started && !g.starting && g.first_started && g.main_port == f.main_port
                && g.authenticated == f.authenticated && g.listening_server
                == f.listening_server && g.sending_server_message == f.sending_server_message
        }),
        disconnected_step(f, down).1 == (down is Some, match down {
            Some(b) => b,
            None => f.first_started,
        }),
        down is None ==> disconnected_step(f, down).0 == f,
        listen_step(f, has_stream).1 == (!f.listening_server && has_stream),
        send_step(f, has_sink).1 == (!f.sending_server_message && has_sink),
{
}

/// Every step keeps a port consistent: it never counts as open and as being
/// opened at once.
pub proof fn lemma_steps_keep_consistent(
    f: PortFlags,
    socket_arrived: bool,
    down: Option<bool>,
    has_stream: bool,
    has_sink: bool,
)
    requires
        consistent(f),
    ensures
        consistent(initial_flags()),
        consistent(start_step(f).0),
        consistent(started_step(f, socket_arrived).0),
        consistent(disconnected_step(f, down).0),
        consistent(listen_step(f, has_stream).0),
        consistent(send_step(f, has_sink).0),
{
}

/// Starting twice opens one connection: the second start asks for nothing
/// and changes nothing. The same holds of starting the reading task and the
/// writing task.
pub proof fn lemma_start_idempotent(f: PortFlags, has_stream: bool, has_sink: bool)
    ensures
        start_step(start_step(f).0) == (start_step(f).0, false),
        listen_step(listen_step(f, has_stream).0, has_stream) == (
            listen_step(f, has_stream).0,
            false,
        ),
        send_step(send_step(f, has_sink).0, has_sink) == (send_step(f, has_sink).0, false),
{
}

/// Once a connection has been open, the port remembers it through every
/// step.
pub proof fn lemma_first_started_kept(
    f: PortFlags,
    socket_arrived: bool,
    down: Option<bool>,
    has_stream: bool,
    has_sink: bool,
)
    requires
        f.first_started,
    ensures
        start_step(f).0.first_started,
        started_step(f, socket_arrived).0.first_started,
        disconnected_step(f, down).0.first_started,
        listen_step(f, has_stream).0.first_started,
        send_step(f, has_sink).0.first_started,
{
}

/// A connection's life: a new port starts opening; when the socket arrives
/// the port is open and says it opened just now, and asking again says it is
/// open but not new; when the connection goes down the port is closed,
/// unauthenticated, without tasks, and can open a connection again.
pub proof fn lemma_connection_cycle(was_started: bool)
    ensures
        ({
            let (opening, open_now) = start_step(initial_flags());
            let (open, first) = started_step(opening, true);
            let (again, second) = started_step(open, false);
            let (closed, report) = disconnected_step(again, Some(was_started));
            &&& open_now
            &&& first == (true, true)
            &&& second == (true, false)
            &&& again.first_started
            &&& report == (true, was_started)
            &&& !closed.started && !closed.starting && !closed.authenticated
            &&& !closed.listening_server && !closed.sending_server_message
            &&& start_step(closed).1
        }),
{
}

} // verus!
