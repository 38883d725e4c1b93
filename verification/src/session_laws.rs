use crate::session::{
    CommandView, EventView, Phase, SessionError, SessionView, lossy_text, result_prefix,
};
use crate::target::well_formed_target;
use vstd::prelude::*;

verus! {

impl Phase {
    /// How many steps of the exchange lie behind a session in this phase. A
    /// session that failed at a step stays where that step began; one whose
    /// deadline passed may have come any distance.
    pub open spec fn progress(self) -> nat {
        match self {
            Phase::Disconnected => 0,
            Phase::Connected => 1,
            Phase::Handshaken => 2,
            Phase::Authenticated => 3,
            Phase::ChannelOpen => 4,
            Phase::Executing => 5,
            Phase::Completed => 6,
            Phase::Failed(e) => match e.step() {
                Some(k) => k,
                None => 6,
            },
        }
    }
}

impl SessionError {
    /// The place in the exchange of the step that this error names.
    pub open spec fn step(self) -> Option<nat> {
        match self {
            SessionError::ConnectError => Some(0),
            SessionError::HandshakeError => Some(1),
            SessionError::AuthError => Some(2),
            SessionError::ChannelError => Some(3),
            SessionError::ExecError => Some(4),
            SessionError::TimeoutError => None,
        }
    }
}

impl CommandView {
    /// The place in the exchange of the step that this command asks for.
    pub open spec fn step(self) -> Option<nat> {
        match self {
            CommandView::Connect { .. } => Some(0),
            CommandView::Handshake => Some(1),
            CommandView::Authenticate { .. } => Some(2),
            CommandView::OpenChannel => Some(3),
            CommandView::Execute { .. } => Some(4),
            CommandView::Drain => Some(5),
            CommandView::Finish => None,
        }
    }
}

impl SessionView {
    /// The session after the transport has reported `events`, one after the
    /// other.
    pub open spec fn run(self, events: Seq<EventView>) -> SessionView
        decreases events.len(),
    {
        if events.len() == 0 {
            self
        } else {
            self.run(events.drop_last()).after(events.last())
        }
    }

    /// The commands handed to the transport in the course of `events`: the
    /// first before any report, then one after each.
    pub open spec fn issued(self, events: Seq<EventView>) -> Seq<CommandView> {
        Seq::new(events.len() + 1, |i: int| self.run(events.take(i)).pending())
    }
}

/// The chunks of output joined in the order of their arrival.
pub open spec fn joined(chunks: Seq<Seq<u8>>) -> Seq<u8>
    decreases chunks.len(),
{
    if chunks.len() == 0 {
        Seq::empty()
    } else {
        joined(chunks.drop_last()) + chunks.last()
    }
}

/// The reports of the transport while output arrives in `chunks`.
pub open spec fn arrivals(chunks: Seq<Seq<u8>>) -> Seq<EventView> {
    Seq::new(chunks.len(), |i: int| EventView::Output(chunks[i]))
}

/// A session that has completed or failed stays as it is, whatever is
/// reported to it, and asks for nothing more.
pub proof fn lemma_terminal_is_final(s: SessionView, events: Seq<EventView>)
    requires
        s.phase.is_terminal(),
    ensures
        s.run(events) == s,
        s.pending() is Finish,
    decreases events.len(),
{
    if events.len() > 0 {
        lemma_terminal_is_final(s, events.drop_last());
    }
}

/// A report moves a session forward by one step or leaves it in place: no
/// step is taken back and none is passed over. Only the deadline ends a
/// session from wherever it stands.
pub proof fn lemma_step_never_regresses(s: SessionView, event: EventView)
    ensures
        s.phase.progress() <= s.after(event).phase.progress(),
        s.after(event).phase.progress() <= s.phase.progress() + 1 || s.after(event).phase
            == Phase::Failed(SessionError::TimeoutError),
{
}

/// The deadline ends every session that is still running, with
/// `TimeoutError` and without a result; nothing is asked of the transport
/// after it.
pub proof fn lemma_deadline_ends_session(s: SessionView)
    requires
        !s.phase.is_terminal(),
    ensures
        s.after(EventView::Expired).outcome() == Some(
            Err::<Seq<char>, SessionError>(SessionError::TimeoutError),
        ),
        s.after(EventView::Expired).pending() is Finish,
{
}

/// Reporting `first` and then `rest` is reporting them in one run.
pub proof fn lemma_run_split(s: SessionView, first: Seq<EventView>, rest: Seq<EventView>)
    ensures
        s.run(first + rest) == s.run(first).run(rest),
    decreases rest.len(),
{
    if rest.len() == 0 {
        assert(first + rest =~= first);
    } else {
        lemma_run_split(s, first, rest.drop_last());
        assert((first + rest).drop_last() =~= first + rest.drop_last());
        assert((first + rest).last() == rest.last());
    }
}

/// Over a whole run a session only moves forward.
pub proof fn lemma_run_never_regresses(s: SessionView, events: Seq<EventView>)
    ensures
        s.phase.progress() <= s.run(events).phase.progress(),
    decreases events.len(),
{
    if events.len() > 0 {
        lemma_run_never_regresses(s, events.drop_last());
        lemma_step_never_regresses(s.run(events.drop_last()), events.last());
    }
}

/// A session that failed at a step never asked for a later one: every
/// command handed out in the course of the run belongs to that step or to
/// one before it, or is the closing `Finish`.
pub proof fn lemma_failure_stops_the_chain(
    s: SessionView,
    events: Seq<EventView>,
    error: SessionError,
    i: int,
)
    requires
        s.run(events).phase == Phase::Failed(error),
        error.step() is Some,
        0 <= i <= events.len(),
    ensures
        s.issued(events)[i].step() matches Some(k) ==> k <= error.step()->0,
{
    let at = s.run(events.take(i));
    lemma_run_split(s, events.take(i), events.skip(i));
    assert(events.take(i) + events.skip(i) =~= events);
    lemma_run_never_regresses(at, events.skip(i));
}

/// Rejected credentials end the session with `AuthError`, and no channel is
/// ever asked for: neither before the rejection nor after it.
pub proof fn lemma_auth_failure_opens_no_channel(
    s: SessionView,
    events: Seq<EventView>,
    i: int,
)
    requires
        s.run(events).phase == Phase::Failed(SessionError::AuthError),
        0 <= i <= events.len(),
    ensures
        !(s.issued(events)[i] is OpenChannel),
        !(s.issued(events)[i] is Execute),
        !(s.issued(events)[i] is Drain),
{
    lemma_failure_stops_the_chain(s, events, SessionError::AuthError, i);
}

/// While a session waits for the outcome of authentication, any report but
/// success or the deadline ends it with `AuthError`.
pub proof fn lemma_rejected_credentials(s: SessionView, event: EventView)
    requires
        s.phase is Handshaken,
        !(event is Advanced),
        !(event is Expired),
    ensures
        s.after(event).phase == Phase::Failed(SessionError::AuthError),
        s.after(event).pending() is Finish,
        s.after(event).outcome() == Some(
            Err::<Seq<char>, SessionError>(SessionError::AuthError),
        ),
{
}

/// A session whose target names no endpoint has failed with `ConnectError`
/// from the start: the transport is handed `Finish` and nothing else, so no
/// connection and no handshake is attempted.
pub proof fn lemma_bad_target_never_connects(
    target: Seq<char>,
    user: Seq<char>,
    password: Seq<char>,
    command: Seq<char>,
    events: Seq<EventView>,
    i: int,
)
    requires
        !well_formed_target(target),
        0 <= i <= events.len(),
    ensures
        SessionView::initial(target, user, password, command).run(events).outcome() == Some(
            Err::<Seq<char>, SessionError>(SessionError::ConnectError),
        ),
        SessionView::initial(target, user, password, command).issued(events)[i] is Finish,
{
    let s = SessionView::initial(target, user, password, command);
    lemma_terminal_is_final(s, events);
    lemma_terminal_is_final(s, events.take(i));
}

/// While the command runs, the output that arrives is gathered in order and
/// the session keeps draining.
pub proof fn lemma_drain_gathers(s: SessionView, chunks: Seq<Seq<u8>>)
    requires
        s.phase is Executing,
    ensures
        s.run(arrivals(chunks)) == (SessionView { output: s.output + joined(chunks), ..s }),
    decreases chunks.len(),
{
    if chunks.len() == 0 {
        assert(s.output + joined(chunks) =~= s.output);
    } else {
        let head = chunks.drop_last();
        lemma_drain_gathers(s, head);
        assert(arrivals(chunks).drop_last() =~= arrivals(head));
        assert(arrivals(chunks).last() == EventView::Output(chunks.last()));
        assert(s.output + joined(head) + chunks.last() =~= s.output + joined(chunks));
    }
}

/// The five steps that lead from a fresh session to a running command.
pub open spec fn five_steps() -> Seq<EventView> {
    seq![
        EventView::Advanced,
        EventView::Advanced,
        EventView::Advanced,
        EventView::Advanced,
        EventView::Advanced,
    ]
}

/// When every step goes through, the session completes with the result line
/// made of all the output that arrived, in order, read as text.
pub proof fn lemma_completed_session_reports_output(
    target: Seq<char>,
    user: Seq<char>,
    password: Seq<char>,
    command: Seq<char>,
    chunks: Seq<Seq<u8>>,
)
    requires
        well_formed_target(target),
    ensures
        SessionView::initial(target, user, password, command).run(
            five_steps() + arrivals(chunks) + seq![EventView::Closed],
        ).outcome() == Some(
            Ok::<Seq<char>, SessionError>(result_prefix() + lossy_text(joined(chunks))),
        ),
{
    let s0 = SessionView::initial(target, user, password, command);
    let steps = five_steps();
    let s1 = s0.run(steps.take(1));
    let s2 = s0.run(steps.take(2));
    let s3 = s0.run(steps.take(3));
    let s4 = s0.run(steps.take(4));
    let s5 = s0.run(steps);
    assert(steps.take(1).drop_last() =~= Seq::<EventView>::empty());
    assert(s0.run(Seq::<EventView>::empty()) == s0);
    assert(s1.phase is Connected);
    assert(steps.take(2).drop_last() =~= steps.take(1));
    assert(s2.phase is Handshaken);
    assert(steps.take(3).drop_last() =~= steps.take(2));
    assert(s3.phase is Authenticated);
    assert(steps.take(4).drop_last() =~= steps.take(3));
    assert(s4.phase is ChannelOpen);
    assert(steps.drop_last() =~= steps.take(4));
    assert(s5.phase is Executing);
    assert(s5.output =~= Seq::<u8>::empty());
    lemma_run_split(s0, steps, arrivals(chunks));
    lemma_drain_gathers(s5, chunks);
    let s6 = s5.run(arrivals(chunks));
    lemma_run_split(s0, steps + arrivals(chunks), seq![EventView::Closed]);
    let last = seq![EventView::Closed];
    assert(last.drop_last() =~= Seq::<EventView>::empty());
    assert(s6.run(last) == s6.run(Seq::<EventView>::empty()).after(EventView::Closed));
    assert(s5.output + joined(chunks) =~= joined(chunks));
}

} // verus!
