use crate::target::{is_well_formed_target, well_formed_target};
use vstd::prelude::*;
use vstd::utf8::{decode_utf8, valid_utf8};

verus! {

/// Why a session ended without a result. Each of the first five names the
/// one step of the exchange that failed; the last says that the caller's
/// deadline passed first.
#[derive(Clone, Copy, Debug, PartialEq, Eq, Structural)]
pub enum SessionError {
    ConnectError,
    HandshakeError,
    AuthError,
    ChannelError,
    ExecError,
    TimeoutError,
}

/// How far a session has come.
#[derive(Clone, Copy, Debug, PartialEq, Eq, Structural)]
pub enum Phase {
    Disconnected,
    Connected,
    Handshaken,
    Authenticated,
    ChannelOpen,
    Executing,
    Completed,
    Failed(SessionError),
}

/// What the transport has to do next on behalf of a session.
#[derive(Clone, Debug, PartialEq, Eq)]
pub enum Command {
    Connect { address: String },
    Handshake,
    Authenticate { user: String, password: String },
    OpenChannel,
    Execute { command: String },
    Drain,
    Finish,
}

/// What the transport reports back after carrying out a command. A report
/// that does not fit the step under way counts as the failure of that step.
#[derive(Clone, Debug, PartialEq, Eq)]
pub enum Event {
    /// The step went through.
    Advanced,
    /// The remote side refused the step.
    Refused,
    /// A piece of the command's output arrived.
    Output(Vec<u8>),
    /// The remote side signalled the end of the output, or the connection
    /// closed.
    Closed,
    /// The caller's deadline passed.
    Expired,
}

/// A [`Command`] as plain values.
pub enum CommandView {
    Connect { address: Seq<char> },
    Handshake,
    Authenticate { user: Seq<char>, password: Seq<char> },
    OpenChannel,
    Execute { command: Seq<char> },
    Drain,
    Finish,
}

/// An [`Event`] as plain values.
pub enum EventView {
    Advanced,
    Refused,
    Output(Seq<u8>),
    Closed,
    Expired,
}

impl View for Command {
    type V = CommandView;

    open spec fn view(&self) -> CommandView {
        match self {
            Command::Connect { address } => CommandView::Connect { address: address@ },
            Command::Handshake => CommandView::Handshake,
            Command::Authenticate { user, password } => CommandView::Authenticate {
                user: user@,
                password: password@,
            },
            Command::OpenChannel => CommandView::OpenChannel,
            Command::Execute { command } => CommandView::Execute { command: command@ },
            Command::Drain => CommandView::Drain,
            Command::Finish => CommandView::Finish,
        }
    }
}

impl View for Event {
    type V = EventView;

    open spec fn view(&self) -> EventView {
        match self {
            Event::Advanced => EventView::Advanced,
            Event::Refused => EventView::Refused,
            Event::Output(chunk) => EventView::Output(chunk@),
            Event::Closed => EventView::Closed,
            Event::Expired => EventView::Expired,
        }
    }
}

impl Phase {
    /// A session in a terminal phase takes no further step.
    pub open spec fn is_terminal(self) -> bool {
        self is Completed || self is Failed
    }

    /// The phase that a step which went through leads to.
    pub open spec fn next(self) -> Phase {
        match self {
            Phase::Disconnected => Phase::Connected,
            Phase::Connected => Phase::Handshaken,
            Phase::Handshaken => Phase::Authenticated,
            Phase::Authenticated => Phase::ChannelOpen,
            Phase::ChannelOpen => Phase::Executing,
            Phase::Executing => Phase::Completed,
            Phase::Completed => Phase::Completed,
            Phase::Failed(e) => Phase::Failed(e),
        }
    }

    /// The error that names the step taken from this phase. Draining the
    /// output has no error of its own, and a terminal phase takes no step.
    pub open spec fn step_error(self) -> Option<SessionError> {
        match self {
            Phase::Disconnected => Some(SessionError::ConnectError),
            Phase::Connected => Some(SessionError::HandshakeError),
            Phase::Handshaken => Some(SessionError::AuthError),
            Phase::Authenticated => Some(SessionError::ChannelError),
            Phase::ChannelOpen => Some(SessionError::ExecError),
            _ => None,
        }
    }

    /// The phase that follows this one when the transport reports `event`.
    pub open spec fn after(self, event: EventView) -> Phase {
        if self.is_terminal() {
            self
        } else if event is Expired {
            Phase::Failed(SessionError::TimeoutError)
        } else if self is Executing {
            if event is Output {
                Phase::Executing
            } else {
                Phase::Completed
            }
        } else if event is Advanced {
            self.next()
        } else {
            Phase::Failed(self.step_error()->0)
        }
    }
}

/// The text that opens the result line of a completed session.
pub open spec fn result_prefix() -> Seq<char> {
    "result: "@
}

/// The text that `String::from_utf8_lossy` makes of `bytes`: what they
/// encode, with a replacement character for each stretch that encodes
/// nothing.
pub uninterp spec fn lossy_text(bytes: Seq<u8>) -> Seq<char>;

/// A session as plain values.
pub struct SessionView {
    pub target: Seq<char>,
    pub user: Seq<char>,
    pub password: Seq<char>,
    pub command: Seq<char>,
    pub phase: Phase,
    pub output: Seq<u8>,
}

impl SessionView {
    /// A session before its first step. One whose target names no endpoint
    /// has failed to connect before anything is sent.
    pub open spec fn initial(
        target: Seq<char>,
        user: Seq<char>,
        password: Seq<char>,
        command: Seq<char>,
    ) -> SessionView {
        SessionView {
            target,
            user,
            password,
            command,
            phase: if well_formed_target(target) {
                Phase::Disconnected
            } else {
                Phase::Failed(SessionError::ConnectError)
            },
            output: Seq::empty(),
        }
    }

    /// The session after the transport has reported `event`. Output is
    /// gathered while the command runs and dropped when the session fails.
    pub open spec fn after(self, event: EventView) -> SessionView {
        let phase = self.phase.after(event);
        if self.phase.is_terminal() {
            self
        } else {
            SessionView {
                phase,
                output: if phase is Failed {
                    Seq::empty()
                } else if self.phase is Executing && event is Output {
                    self.output + event->Output_0
                } else {
                    self.output
                },
                ..self
            }
        }
    }

    /// What the transport has to do next.
    pub open spec fn pending(self) -> CommandView {
        match self.phase {
            Phase::Disconnected => CommandView::Connect { address: self.target },
            Phase::Connected => CommandView::Handshake,
            Phase::Handshaken => CommandView::Authenticate {
                user: self.user,
                password: self.password,
            },
            Phase::Authenticated => CommandView::OpenChannel,
            Phase::ChannelOpen => CommandView::Execute { command: self.command },
            Phase::Executing => CommandView::Drain,
            Phase::Completed => CommandView::Finish,
            Phase::Failed(_) => CommandView::Finish,
        }
    }

    /// What the session has to show for itself: nothing while it runs, the
    /// result line once it has completed, the error once it has failed.
    pub open spec fn outcome(self) -> Option<Result<Seq<char>, SessionError>> {
        match self.phase {
            Phase::Completed => Some(Ok(result_prefix() + lossy_text(self.output))),
            Phase::Failed(e) => Some(Err(e)),
            _ => None,
        }
    }
}

/// One exchange with a remote host: connect, shake hands, authenticate, open
/// a channel, execute a command and drain its output. The session decides;
/// the transport acts on the command it is handed and reports an event.
#[derive(Debug)]
pub struct ExecSession {
    target: String,
    user: String,
    password: String,
    command: String,
    phase: Phase,
    output: Vec<u8>,
}

impl View for ExecSession {
    type V = SessionView;

    closed spec fn view(&self) -> SessionView {
        SessionView {
            target: self.target@,
            user: self.user@,
            password: self.password@,
            command: self.command@,
            phase: self.phase,
            output: self.output@,
        }
    }
}

impl ExecSession {
    /// A session that is to run `command` at `target` as `user`.
    pub fn new(target: String, user: String, password: String, command: String) -> (session:
        ExecSession)
        ensures
            session@ == SessionView::initial(target@, user@, password@, command@),
    {
        let phase = if is_well_formed_target(target.as_str()) {
            Phase::Disconnected
        } else {
            Phase::Failed(SessionError::ConnectError)
        };
        ExecSession { target, user, password, command, phase, output: Vec::new() }
    }

    /// How far the session has come.
    pub fn phase(&self) -> (phase: Phase)
        ensures
            phase == self@.phase,
    {
        self.phase
    }

    /// The output gathered so far.
    pub fn output(&self) -> (output: &Vec<u8>)
        ensures
            output@ == self@.output,
    {
        &self.output
    }

    /// What the transport has to do next.
    pub fn pending(&self) -> (todo: Command)
        ensures
            todo@ == self@.pending(),
    {
        match self.phase {
            Phase::Disconnected => Command::Connect { address: self.target.clone() },
            Phase::Connected => Command::Handshake,
            Phase::Handshaken => Command::Authenticate {
                user: self.user.clone(),
                password: self.password.clone(),
            },
            Phase::Authenticated => Command::OpenChannel,
            Phase::ChannelOpen => Command::Execute { command: self.command.clone() },
            Phase::Executing => Command::Drain,
            Phase::Completed => Command::Finish,
            Phase::Failed(_) => Command::Finish,
        }
    }

    /// Takes the transport's report and says what it has to do next.
    pub fn on_event(&mut self, event: Event) -> (todo: Command)
        ensures
            final(self)@ == old(self)@.after(event@),
            todo@ == final(self)@.pending(),
    {
        match self.phase {
            Phase::Completed => {},
            Phase::Failed(_) => {},
            Phase::Executing => {
                match event {
                    Event::Expired => {
                        self.fail(SessionError::TimeoutError);
                    },
                    Event::Output(chunk) => {
                        let ghost before = self.output@;
                        self.output.extend_from_slice(chunk.as_slice());
                        assert(self.output@ =~= before + chunk@);
                    },
                    _ => {
                        self.phase = Phase::Completed;
                    },
                }
            },
            Phase::Disconnected => {
                self.take_step(event, Phase::Connected, SessionError::ConnectError);
            },
            Phase::Connected => {
                self.take_step(event, Phase::Handshaken, SessionError::HandshakeError);
            },
            Phase::Handshaken => {
                self.take_step(event, Phase::Authenticated, SessionError::AuthError);
            },
            Phase::Authenticated => {
                self.take_step(event, Phase::ChannelOpen, SessionError::ChannelError);
            },
            Phase::ChannelOpen => {
                self.take_step(event, Phase::Executing, SessionError::ExecError);
            },
        }
        self.pending()
    }

    /// What the session has to show for itself. Output that is valid UTF-8
    /// is reported as the text that it encodes.
    pub fn outcome(&self) -> (outcome: Option<Result<String, SessionError>>)
        ensures
            match outcome {
                Some(Ok(line)) => self@.outcome() == Some(
                    Ok::<Seq<char>, SessionError>(line@),
                ),
                Some(Err(e)) => self@.outcome() == Some(Err::<Seq<char>, SessionError>(e)),
                None => self@.outcome() is None,
            },
            self@.phase is Completed && valid_utf8(self@.output) ==> (outcome matches Some(
                Ok(line),
            ) && line@ == result_prefix() + decode_utf8(self@.output)),
    {
        match self.phase {
            Phase::Completed => {
                let text = text_of(self.output.as_slice());
                Some(Ok(result_line(text.as_str())))
            },
            Phase::Failed(e) => Some(Err(e)),
            _ => None,
        }
    }

    fn fail(&mut self, error: SessionError)
        ensures
            final(self)@ == (SessionView {
                phase: Phase::Failed(error),
                output: Seq::empty(),
                ..old(self)@
            }),
    {
        self.phase = Phase::Failed(error);
        self.output = Vec::new();
    }

    fn take_step(&mut self, event: Event, next: Phase, error: SessionError)
        requires
            !old(self)@.phase.is_terminal(),
            !(old(self)@.phase is Executing),
            next == old(self)@.phase.next(),
            Some(error) == old(self)@.phase.step_error(),
        ensures
            final(self)@ == old(self)@.after(event@),
    {
        match event {
            Event::Advanced => {
                self.phase = next;
            },
            Event::Expired => {
                self.fail(SessionError::TimeoutError);
            },
            _ => {
                self.fail(error);
            },
        }
    }
}

/// Calls `String::from_utf8_lossy`, which reads bytes as text and writes a
/// replacement character wherever they are no UTF-8. Bytes that are valid
/// UTF-8 give the string that they encode.
#[verifier::external_body]
fn text_of(bytes: &[u8]) -> (text: String)
    ensures
        text@ == lossy_text(bytes@),
        valid_utf8(bytes@) ==> text@ == decode_utf8(bytes@),
{
    String::from_utf8_lossy(bytes).into_owned()
}

/// The line that reports the output of a completed session.
pub fn result_line(output: &str) -> (line: String)
    ensures
        line@ == result_prefix() + output@,
{
    let mut line = String::from_str("result: ");
    line.append(output);
    line
}

} // verus!
