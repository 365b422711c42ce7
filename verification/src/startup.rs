//! Bringing the server up: one step at a time, from the first check to the answer.

use vstd::prelude::*;

use crate::client::{
    LemonadeClient, LEMONADE_CONNECTION_ERROR, LEMONADE_START_TIMEOUT_ERROR,
};
use crate::error::{other_error, outcome, ClientError, ErrorKind, ErrorView};

verus! {

/// How long a started server may take to answer, in milliseconds.
pub const START_TIMEOUT_MS: u64 = 30_000;

/// How long to wait between two checks, in milliseconds.
pub const POLL_INTERVAL_MS: u64 = 500;

/// How far the start of the server has come.
pub enum Startup<P> {
    /// Is the server up already?
    FirstCheck,
    /// Where is the server's program?
    Locating,
    /// Start the program that is here.
    Starting(P),
    /// Is there time left?
    ReadingClock,
    /// Does the server answer by now?
    Checking,
    /// Wait before the next check.
    Sleeping,
    /// It is over.
    Finished(Result<(), ClientError>),
}

/// What is to be done next.
#[derive(Debug, PartialEq, Eq)]
pub enum StartupAction<P> {
    /// Ask the server whether it is up.
    CheckServer,
    /// Look for the server's program.
    FindServerExe,
    /// Start the program that was found, here.
    StartServer(P),
    /// Tell how many milliseconds have gone by since the server was started.
    ReadClock,
    /// Wait for this many milliseconds.
    Sleep(u64),
}

/// What came of an action.
pub enum StartupEvent<P> {
    /// Whether the server is up, as `LemonadeClient::check_server` has it.
    Checked(Result<(), ClientError>),
    /// Where the program was found.
    Located(Result<P, ClientError>),
    /// Whether the program was started.
    Started(Result<(), ClientError>),
    /// How many milliseconds have gone by since the server was started.
    Clock(u64),
    /// The wait is over.
    Slept,
}

/// `Startup` as contracts speak of it.
pub enum StartupView<P> {
    FirstCheck,
    Locating,
    Starting(P),
    ReadingClock,
    Checking,
    Sleeping,
    Finished(Result<(), ErrorView>),
}

/// `StartupEvent` as contracts speak of it.
pub enum StartupEventView<P> {
    Checked(bool),
    Located(Result<P, ErrorView>),
    Started(Result<(), ErrorView>),
    Clock(u64),
    Slept,
}

impl<P> View for Startup<P> {
    type V = StartupView<P>;

    open spec fn view(&self) -> StartupView<P> {
        match self {
            Startup::FirstCheck => StartupView::FirstCheck,
            Startup::Locating => StartupView::Locating,
            Startup::Starting(path) => StartupView::Starting(*path),
            Startup::ReadingClock => StartupView::ReadingClock,
            Startup::Checking => StartupView::Checking,
            Startup::Sleeping => StartupView::Sleeping,
            Startup::Finished(r) => StartupView::Finished(outcome(*r)),
        }
    }
}

impl<P> View for StartupEvent<P> {
    type V = StartupEventView<P>;

    open spec fn view(&self) -> StartupEventView<P> {
        match self {
            StartupEvent::Checked(r) => StartupEventView::Checked(*r is Ok),
            StartupEvent::Located(r) => StartupEventView::Located(
                match r {
                    Ok(path) => Ok(*path),
                    Err(e) => Err(e@),
                },
            ),
            StartupEvent::Started(r) => StartupEventView::Started(outcome(*r)),
            StartupEvent::Clock(ms) => StartupEventView::Clock(*ms),
            StartupEvent::Slept => StartupEventView::Slept,
        }
    }
}

/// An action on a program that is lent.
pub open spec fn action_of<P>(action: Option<StartupAction<&P>>) -> Option<StartupAction<P>> {
    match action {
        Some(StartupAction::CheckServer) => Some(StartupAction::CheckServer),
        Some(StartupAction::FindServerExe) => Some(StartupAction::FindServerExe),
        Some(StartupAction::StartServer(path)) => Some(StartupAction::StartServer(*path)),
        Some(StartupAction::ReadClock) => Some(StartupAction::ReadClock),
        Some(StartupAction::Sleep(ms)) => Some(StartupAction::Sleep(ms)),
        None => None,
    }
}

/// The failure of a server that was started and stays silent.
pub open spec fn start_timeout() -> ErrorView {
    other_error(LEMONADE_START_TIMEOUT_ERROR@ + " "@ + LEMONADE_CONNECTION_ERROR@)
}

impl<P> StartupView<P> {
    /// What is to be done next, unless it is over.
    pub open spec fn action(self) -> Option<StartupAction<P>> {
        match self {
            StartupView::FirstCheck | StartupView::Checking => Some(StartupAction::CheckServer),
            StartupView::Locating => Some(StartupAction::FindServerExe),
            StartupView::Starting(path) => Some(StartupAction::StartServer(path)),
            StartupView::ReadingClock => Some(StartupAction::ReadClock),
            StartupView::Sleeping => Some(StartupAction::Sleep(POLL_INTERVAL_MS)),
            StartupView::Finished(_) => None,
        }
    }

    /// Where an event leads. One that does not answer the pending action is
    /// passed over.
    pub open spec fn next(self, event: StartupEventView<P>) -> StartupView<P> {
        match (self, event) {
            (StartupView::FirstCheck, StartupEventView::Checked(up)) => if up {
                StartupView::Finished(Ok(()))
            } else {
                StartupView::Locating
            },
            (StartupView::Locating, StartupEventView::Located(r)) => match r {
                Ok(path) => StartupView::Starting(path),
                Err(e) => StartupView::Finished(Err(e)),
            },
            (StartupView::Starting(_), StartupEventView::Started(r)) => match r {
                Ok(_) => StartupView::ReadingClock,
                Err(e) => StartupView::Finished(Err(e)),
            },
            (StartupView::ReadingClock, StartupEventView::Clock(ms)) => if ms < START_TIMEOUT_MS {
                StartupView::Checking
            } else {
                StartupView::Finished(Err(start_timeout()))
            },
            (StartupView::Checking, StartupEventView::Checked(up)) => if up {
                StartupView::Finished(Ok(()))
            } else {
                StartupView::Sleeping
            },
            (StartupView::Sleeping, StartupEventView::Slept) => StartupView::ReadingClock,
            _ => self,
        }
    }

    /// Where a run of events leads.
    pub open spec fn run(self, events: Seq<StartupEventView<P>>) -> StartupView<P>
        decreases events.len(),
    {
        if events.len() == 0 {
            self
        } else {
            self.next(events[0]).run(events.drop_first())
        }
    }

    /// How far the start has come, in stages that are never gone back on.
    pub open spec fn stage(self) -> int {
        match self {
            StartupView::FirstCheck => 0,
            StartupView::Locating => 1,
            StartupView::Starting(_) => 2,
            StartupView::ReadingClock | StartupView::Checking | StartupView::Sleeping => 3,
            StartupView::Finished(_) => 4,
        }
    }
}

impl LemonadeClient {
    /// Sees to it that the server runs: it is asked first, started where it does
    /// not answer, and then asked again until it answers or time is up.
    pub fn ensure_server_running<P>(&self) -> (r: Startup<P>)
        ensures
            r@ == StartupView::<P>::FirstCheck,
    {
        Startup::FirstCheck
    }
}

impl<P> Startup<P> {
    /// What is to be done next, unless it is over.
    pub fn action(&self) -> (r: Option<StartupAction<&P>>)
        ensures
            action_of(r) == self@.action(),
    {
        match self {
            Startup::FirstCheck | Startup::Checking => Some(StartupAction::CheckServer),
            Startup::Locating => Some(StartupAction::FindServerExe),
            Startup::Starting(path) => Some(StartupAction::StartServer(path)),
            Startup::ReadingClock => Some(StartupAction::ReadClock),
            Startup::Sleeping => Some(StartupAction::Sleep(POLL_INTERVAL_MS)),
            Startup::Finished(_) => None,
        }
    }

    /// Where an event leads.
    pub fn next(self, event: StartupEvent<P>) -> (r: Startup<P>)
        ensures
            r@ == self@.next(event@),
    {
        match (self, event) {
            (Startup::FirstCheck, StartupEvent::Checked(r)) => if r.is_ok() {
                Startup::Finished(Ok(()))
            } else {
                Startup::Locating
            },
            (Startup::Locating, StartupEvent::Located(r)) => match r {
                Ok(path) => Startup::Starting(path),
                Err(e) => Startup::Finished(Err(e)),
            },
            (Startup::Starting(_), StartupEvent::Started(r)) => match r {
                Ok(_) => Startup::ReadingClock,
                Err(e) => Startup::Finished(Err(e)),
            },
            (Startup::ReadingClock, StartupEvent::Clock(ms)) => if ms < START_TIMEOUT_MS {
                Startup::Checking
            } else {
                Startup::Finished(
                    Err(
                        ClientError::other(
                            LEMONADE_START_TIMEOUT_ERROR.to_owned().concat(" ").concat(
                                LEMONADE_CONNECTION_ERROR,
                            ),
                        ),
                    ),
                )
            },
            (Startup::Checking, StartupEvent::Checked(r)) => if r.is_ok() {
                Startup::Finished(Ok(()))
            } else {
                Startup::Sleeping
            },
            (Startup::Sleeping, StartupEvent::Slept) => Startup::ReadingClock,
            (state, _) => state,
        }
    }

    /// Whether the server is up, once that is known.
    pub fn result(self) -> (r: Option<Result<(), ClientError>>)
        ensures
            match self@ {
                StartupView::Finished(end) => r matches Some(got) && outcome(got) == end,
                _ => r is None,
            },
    {
        match self {
            Startup::Finished(r) => Some(r),
            _ => None,
        }
    }
}

/// What is over stays as it is.
pub proof fn law_finished_stays<P>(end: Result<(), ErrorView>, events: Seq<StartupEventView<P>>)
    ensures
        StartupView::<P>::Finished(end).run(events) == StartupView::<P>::Finished(end),
    decreases events.len(),
{
    if events.len() > 0 {
        law_finished_stays::<P>(end, events.drop_first());
    }
}

/// No stage is gone back on.
pub proof fn law_stage_never_falls<P>(state: StartupView<P>, events: Seq<StartupEventView<P>>)
    ensures
        state.stage() <= state.run(events).stage(),
    decreases events.len(),
{
    if events.len() > 0 {
        law_stage_never_falls(state.next(events[0]), events.drop_first());
    }
}

/// Once an attempt to start the server was answered, the server is not started
/// again.
pub proof fn law_started_at_most_once<P>(
    state: StartupView<P>,
    started: Result<(), ErrorView>,
    events: Seq<StartupEventView<P>>,
)
    requires
        state.action() matches Some(StartupAction::StartServer(_)),
    ensures
        !(state.next(StartupEventView::Started(started)).run(events).action() matches Some(
            StartupAction::StartServer(_),
        )),
{
    law_stage_never_falls(state.next(StartupEventView::Started(started)), events);
}

/// The program that is started is the one that was found, after a check that went
/// unanswered.
pub proof fn law_found_program_is_started<P>(events: Seq<StartupEventView<P>>, path: P)
    requires
        StartupView::<P>::FirstCheck.run(events).action() == Some(
            StartupAction::StartServer(path),
        ),
    ensures
        exists|i: int, j: int|
            0 <= i < j < events.len() && #[trigger] events[i] == StartupEventView::<P>::Checked(
                false,
            ) && #[trigger] events[j] == StartupEventView::<P>::Located(Ok(path)),
{
    let i = lemma_first_check(events, path);
    let rest = events.skip(i + 1);
    let j = lemma_search(rest, path);
    assert(events[i + 1 + j] == rest[j]);
}

proof fn lemma_first_check<P>(events: Seq<StartupEventView<P>>, path: P) -> (i: int)
    requires
        StartupView::<P>::FirstCheck.run(events) == StartupView::<P>::Starting(path),
    ensures
        0 <= i < events.len(),
        events[i] == StartupEventView::<P>::Checked(false),
        StartupView::<P>::Locating.run(events.skip(i + 1)) == StartupView::<P>::Starting(path),
    decreases events.len(),
{
    let rest = events.drop_first();
    match StartupView::<P>::FirstCheck.next(events[0]) {
        StartupView::FirstCheck => {
            let i = lemma_first_check(rest, path);
            assert(rest.skip(i + 1) == events.skip(i + 2));
            i + 1
        },
        StartupView::Locating => {
            assert(rest == events.skip(1));
            0
        },
        other => {
            law_stage_never_falls(other, rest);
            0
        },
    }
}

proof fn lemma_search<P>(events: Seq<StartupEventView<P>>, path: P) -> (j: int)
    requires
        StartupView::<P>::Locating.run(events) == StartupView::<P>::Starting(path),
    ensures
        0 <= j < events.len(),
        events[j] == StartupEventView::<P>::Located(Ok(path)),
    decreases events.len(),
{
    let rest = events.drop_first();
    match StartupView::<P>::Locating.next(events[0]) {
        StartupView::Locating => {
            let j = lemma_search(rest, path);
            assert(rest[j] == events[j + 1]);
            j + 1
        },
        StartupView::Starting(found) => {
            lemma_program_stays(found, rest);
            0
        },
        other => {
            law_stage_never_falls(other, rest);
            0
        },
    }
}

proof fn lemma_program_stays<P>(path: P, events: Seq<StartupEventView<P>>)
    ensures
        ({
            let end = StartupView::Starting(path).run(events);
            end == StartupView::<P>::Starting(path) || end.stage() > 2
        }),
    decreases events.len(),
{
    if events.len() > 0 {
        let next = StartupView::Starting(path).next(events[0]);
        if next == StartupView::<P>::Starting(path) {
            lemma_program_stays(path, events.drop_first());
        } else {
            law_stage_never_falls(next, events.drop_first());
        }
    }
}

/// The start ends well with a check that is answered, and with nothing else.
pub proof fn law_success_is_an_answered_check<P>(
    state: StartupView<P>,
    event: StartupEventView<P>,
)
    requires
        !(state is Finished),
    ensures
        state.next(event) == StartupView::<P>::Finished(Ok(())) <==> state.action() == Some(
            StartupAction::<P>::CheckServer,
        ) && event == StartupEventView::<P>::Checked(true),
{
}

/// A server that answers the first check is neither looked for nor started.
pub proof fn law_running_server_is_left_alone<P>(events: Seq<StartupEventView<P>>)
    ensures
        StartupView::<P>::FirstCheck.next(StartupEventView::Checked(true)).run(events)
            == StartupView::<P>::Finished(Ok(())),
{
    law_finished_stays::<P>(Ok(()), events);
}

/// Success is reported only where a check was answered.
pub proof fn law_success_needs_an_answer<P>(state: StartupView<P>, events: Seq<StartupEventView<P>>)
    requires
        !(state is Finished),
        state.run(events) == StartupView::<P>::Finished(Ok(())),
    ensures
        events.contains(StartupEventView::Checked(true)),
    decreases events.len(),
{
    let next = state.next(events[0]);
    if next is Finished {
        law_finished_stays::<P>(next->Finished_0, events.drop_first());
        assert(events[0] == StartupEventView::<P>::Checked(true));
    } else {
        law_success_needs_an_answer(next, events.drop_first());
        let i = choose|i: int|
            0 <= i < events.drop_first().len() && events.drop_first()[i]
                == StartupEventView::<P>::Checked(true);
        assert(events[i + 1] == StartupEventView::<P>::Checked(true));
    }
}

/// One round of waiting for a started server: when it began, in milliseconds
/// since the start, and whether the server answered.
pub struct Poll {
    pub clock: u64,
    pub up: bool,
}

/// The events of some rounds.
pub open spec fn poll_events<P>(polls: Seq<Poll>) -> Seq<StartupEventView<P>>
    decreases polls.len(),
{
    if polls.len() == 0 {
        seq![]
    } else {
        seq![
            StartupEventView::Clock(polls[0].clock),
            StartupEventView::Checked(polls[0].up),
            StartupEventView::Slept,
        ] + poll_events::<P>(polls.drop_first())
    }
}

/// Whether all rounds before round `n` began in time and went unanswered.
pub open spec fn silent_until(polls: Seq<Poll>, n: int) -> bool {
    forall|j: int| 0 <= j < n ==> (#[trigger] polls[j]).clock < START_TIMEOUT_MS && !polls[j].up
}

/// Whether round `n` is the first to be answered, and began in time.
pub open spec fn answered_at(polls: Seq<Poll>, n: int) -> bool {
    &&& 0 <= n < polls.len()
    &&& silent_until(polls, n)
    &&& polls[n].clock < START_TIMEOUT_MS
    &&& polls[n].up
}

/// Whether round `n` is the first to begin too late.
pub open spec fn late_at(polls: Seq<Poll>, n: int) -> bool {
    &&& 0 <= n < polls.len()
    &&& silent_until(polls, n)
    &&& polls[n].clock >= START_TIMEOUT_MS
}

/// Waiting ends well with the first round that is answered, and with the timeout
/// where a round begins too late before that; until then it goes on.
pub proof fn law_waiting<P>(polls: Seq<Poll>)
    ensures
        (exists|n: int| answered_at(polls, n)) ==> StartupView::<P>::ReadingClock.run(
            poll_events::<P>(polls),
        ) == StartupView::<P>::Finished(Ok(())),
        (exists|n: int| late_at(polls, n)) ==> StartupView::<P>::ReadingClock.run(
            poll_events::<P>(polls),
        ) == StartupView::<P>::Finished(Err(start_timeout())),
        silent_until(polls, polls.len() as int) ==> StartupView::<P>::ReadingClock.run(
            poll_events::<P>(polls),
        ) == StartupView::<P>::ReadingClock,
        (exists|n: int| answered_at(polls, n)) || (exists|n: int| late_at(polls, n))
            || silent_until(polls, polls.len() as int),
    decreases polls.len(),
{
    if polls.len() > 0 {
        let rest = polls.drop_first();
        let events = poll_events::<P>(polls);
        law_waiting::<P>(rest);
        let checking = StartupView::<P>::ReadingClock.next(events[0]);
        let after = checking.next(events[1]);
        assert(events.drop_first().drop_first().drop_first() == poll_events::<P>(rest));
        assert(events.drop_first()[0] == events[1]);
        assert(events.drop_first().drop_first()[0] == events[2]);
        reveal_with_fuel(StartupView::run, 4);
        if polls[0].clock >= START_TIMEOUT_MS {
            law_finished_stays::<P>(Err(start_timeout()), events.drop_first());
            assert(late_at(polls, 0));
            assert forall|n: int| !answered_at(polls, n) by {
                if answered_at(polls, n) && n > 0 {
                    assert(polls[0].clock < START_TIMEOUT_MS);
                }
            }
        } else if polls[0].up {
            law_finished_stays::<P>(Ok(()), events.drop_first().drop_first());
            assert(answered_at(polls, 0));
            assert forall|n: int| !late_at(polls, n) by {
                if late_at(polls, n) && n > 0 {
                    assert(!polls[0].up);
                }
            }
        } else {
            assert(StartupView::<P>::ReadingClock.run(events) == StartupView::<P>::ReadingClock.run(
                poll_events::<P>(rest),
            ));
            lemma_shift_polls(polls);
        }
    }
}

proof fn lemma_shift_polls(polls: Seq<Poll>)
    requires
        polls.len() > 0,
        polls[0].clock < START_TIMEOUT_MS,
        !polls[0].up,
    ensures
        (exists|n: int| answered_at(polls, n)) <==> (exists|n: int|
            answered_at(polls.drop_first(), n)),
        (exists|n: int| late_at(polls, n)) <==> (exists|n: int| late_at(polls.drop_first(), n)),
        silent_until(polls, polls.len() as int) <==> silent_until(
            polls.drop_first(),
            polls.len() - 1,
        ),
{
    let rest = polls.drop_first();
    assert forall|n: int| 0 <= n < polls.len() implies #[trigger] silent_until(polls, n + 1)
        == silent_until(rest, n) by {
        if silent_until(polls, n + 1) {
            assert forall|j: int| 0 <= j < n implies (#[trigger] rest[j]).clock < START_TIMEOUT_MS
                && !rest[j].up by {
                assert(polls[j + 1] == rest[j]);
            }
        }
        if silent_until(rest, n) {
            assert forall|j: int| 0 <= j < n + 1 implies (#[trigger] polls[j]).clock
                < START_TIMEOUT_MS && !polls[j].up by {
                if j > 0 {
                    assert(polls[j] == rest[j - 1]);
                }
            }
        }
    }
    assert(silent_until(polls, (polls.len() - 1) + 1) == silent_until(rest, polls.len() - 1));
    if exists|n: int| answered_at(polls, n) {
        let n = choose|n: int| answered_at(polls, n);
        assert(silent_until(polls, (n - 1) + 1) == silent_until(rest, n - 1));
        assert(answered_at(rest, n - 1));
    }
    if exists|n: int| answered_at(rest, n) {
        let n = choose|n: int| answered_at(rest, n);
        assert(silent_until(polls, n + 1) == silent_until(rest, n));
        assert(answered_at(polls, n + 1));
    }
    if exists|n: int| late_at(polls, n) {
        let n = choose|n: int| late_at(polls, n);
        assert(silent_until(polls, (n - 1) + 1) == silent_until(rest, n - 1));
        assert(late_at(rest, n - 1));
    }
    if exists|n: int| late_at(rest, n) {
        let n = choose|n: int| late_at(rest, n);
        assert(silent_until(polls, n + 1) == silent_until(rest, n));
        assert(late_at(polls, n + 1));
    }
}

/// A server that is silent at first, is found and is started is then waited for.
pub proof fn law_cold_start<P>(path: P, polls: Seq<Poll>)
    ensures
        StartupView::<P>::FirstCheck.run(
            seq![
                StartupEventView::Checked(false),
                StartupEventView::Located(Ok(path)),
                StartupEventView::Started(Ok(())),
            ] + poll_events::<P>(polls),
        ) == StartupView::<P>::ReadingClock.run(poll_events::<P>(polls)),
{
    let events = seq![
        StartupEventView::Checked(false),
        StartupEventView::Located(Ok(path)),
        StartupEventView::Started(Ok(())),
    ] + poll_events::<P>(polls);
    assert(events.drop_first()[0] == events[1]);
    assert(events.drop_first().drop_first()[0] == events[2]);
    assert(events.drop_first().drop_first().drop_first() == poll_events::<P>(polls));
    reveal_with_fuel(StartupView::run, 4);
}

/// Where every wait takes its time, waiting is over after sixty-one rounds.
pub proof fn law_waiting_is_bounded<P>(polls: Seq<Poll>)
    requires
        polls.len() > 60,
        forall|i: int| 0 <= i < polls.len() ==> (#[trigger] polls[i]).clock >= i * POLL_INTERVAL_MS,
    ensures
        StartupView::<P>::ReadingClock.run(poll_events::<P>(polls)) is Finished,
{
    law_waiting::<P>(polls);
    assert(polls[60].clock >= START_TIMEOUT_MS);
}

/// A search or a start that fails, for whatever reason, ends it all with that very
/// failure.
pub proof fn law_failures_end_the_start<P>(
    path: P,
    error: ClientError,
    locating: StartupView<P>,
    starting: StartupView<P>,
)
    requires
        locating.action() == Some(StartupAction::<P>::FindServerExe),
        starting.action() == Some(StartupAction::StartServer(path)),
    ensures
        locating.next(StartupEvent::<P>::Located(Err(error))@) matches StartupView::Finished(Err(e))
            && e.kind == error.kind && e.message == error.message@,
        starting.next(StartupEvent::<P>::Started(Err(error))@) matches StartupView::Finished(Err(e))
            && e.kind == error.kind && e.message == error.message@,
{
}

/// A server that does not answer is looked for, the program that is found is to be
/// started next, and once it is started the clock is read.
pub proof fn law_start_goes_on<P>(path: P, error: ClientError)
    ensures
        StartupView::<P>::FirstCheck.action() == Some(StartupAction::<P>::CheckServer),
        StartupView::<P>::FirstCheck.next(StartupEvent::<P>::Checked(Err(error))@).action() == Some(
            StartupAction::<P>::FindServerExe,
        ),
        StartupView::<P>::FirstCheck.next(StartupEvent::<P>::Checked(Err(error))@).next(
            StartupEvent::Located(Ok(path))@,
        ).action() == Some(StartupAction::StartServer(path)),
        StartupView::<P>::FirstCheck.next(StartupEvent::<P>::Checked(Err(error))@).next(
            StartupEvent::Located(Ok(path))@,
        ).next(StartupEvent::<P>::Started(Ok(()))@).action() == Some(
            StartupAction::<P>::ReadClock,
        ),
{
}

/// Whatever the clock says, a server that was started is asked again if fewer than
/// thirty seconds have gone by, and given up if not; one that is asked in vain is
/// asked again after half a second and another look at the clock.
pub proof fn law_waiting_goes_by_the_clock<P>(reading: StartupView<P>, ms: u64, error: ClientError)
    requires
        reading.action() == Some(StartupAction::<P>::ReadClock),
    ensures
        ms < 30_000 ==> {
            let asked = reading.next(StartupEvent::<P>::Clock(ms)@);
            let silent = asked.next(StartupEvent::<P>::Checked(Err(error))@);
            &&& asked.action() == Some(StartupAction::<P>::CheckServer)
            &&& silent.action() == Some(StartupAction::<P>::Sleep(500))
            &&& silent.next(StartupEvent::<P>::Slept@) == reading
        },
        ms >= 30_000 ==> (reading.next(StartupEvent::<P>::Clock(ms)@) matches StartupView::Finished(
            Err(e),
        ) && e.kind == ErrorKind::Other && e.message
            == "Lemonade Server did not become ready within 30 seconds."@ + " "@
            + "Lemonade Server is not responding. Install it with `winget install --id AMD.LemonadeServer` and start LemonadeServer.exe."@),
{
}

/// A check that is answered ends it all well, be it the first one or a later one.
pub proof fn law_answer_ends_the_start<P>(state: StartupView<P>)
    requires
        state.action() == Some(StartupAction::<P>::CheckServer),
    ensures
        state.next(StartupEvent::<P>::Checked(Ok(()))@) == StartupView::<P>::Finished(Ok(())),
        state.next(StartupEvent::<P>::Checked(Ok(()))@).action() is None,
{
}

/// There is something to do until it is over, and an event that is no answer to
/// what is to be done changes nothing.
pub proof fn law_only_answers_count<P>(state: StartupView<P>, event: StartupEvent<P>)
    ensures
        state.action() is None <==> state is Finished,
        state.next(event@) != state ==> match state.action() {
            Some(StartupAction::CheckServer) => event is Checked,
            Some(StartupAction::FindServerExe) => event is Located,
            Some(StartupAction::StartServer(_)) => event is Started,
            Some(StartupAction::ReadClock) => event is Clock,
            Some(StartupAction::Sleep(_)) => event is Slept,
            None => false,
        },
        match state.action() {
            Some(StartupAction::CheckServer) => event is Checked,
            Some(StartupAction::FindServerExe) => event is Located,
            Some(StartupAction::StartServer(_)) => event is Started,
            Some(StartupAction::ReadClock) => event is Clock,
            Some(StartupAction::Sleep(_)) => event is Slept,
            None => false,
        } ==> state.next(event@) != state,
{
}

/// A run of events ends where its last event leads.
pub proof fn law_runs_end_with_their_last_event<P>(
    state: StartupView<P>,
    events: Seq<StartupEventView<P>>,
    event: StartupEventView<P>,
)
    ensures
        state.run(Seq::empty()) == state,
        state.run(events.push(event)) == state.run(events).next(event),
    decreases events.len(),
{
    let all = events.push(event);
    if events.len() == 0 {
        assert(all.drop_first() == Seq::<StartupEventView<P>>::empty());
        assert(state.next(event).run(all.drop_first()) == state.next(event));
    } else {
        law_runs_end_with_their_last_event(state.next(events[0]), events.drop_first(), event);
        assert(all.drop_first() == events.drop_first().push(event));
    }
}

/// An action on a program that is lent is the same action on the program.
pub proof fn law_lent_program_is_the_program<P>(path: &P, ms: u64)
    ensures
        action_of(Some(StartupAction::StartServer(path))) == Some(StartupAction::StartServer(*path)),
        action_of(Some(StartupAction::<&P>::CheckServer)) == Some(StartupAction::<P>::CheckServer),
        action_of(Some(StartupAction::<&P>::FindServerExe)) == Some(
            StartupAction::<P>::FindServerExe,
        ),
        action_of(Some(StartupAction::<&P>::ReadClock)) == Some(StartupAction::<P>::ReadClock),
        action_of(Some(StartupAction::<&P>::Sleep(ms))) == Some(StartupAction::<P>::Sleep(ms)),
        action_of(None::<StartupAction<&P>>) is None,
{
}

} // verus!
