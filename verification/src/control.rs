//! What all sessions have in common: an identity, a running state with a status
//! line, and a configuration.

use crate::messages::{friendly, friendly_error};
use crate::text::{join2, option_text};
use vstd::prelude::*;

verus! {

/// One second on the clock that sessions go by, which counts nanoseconds.
pub const SECOND: u64 = 1_000_000_000;

/// How long a session ignores its button after it was toggled.
pub const DEBOUNCE: u64 = 400_000_000;

/// The time that has passed since `since`.
pub open spec fn elapsed(since: u64, now: u64) -> int {
    if now >= since {
        now - since
    } else {
        0
    }
}

/// A moment one second before `now`, or the start of the clock.
pub open spec fn a_second_before(now: u64) -> u64 {
    if now >= SECOND {
        (now - SECOND) as u64
    } else {
        0
    }
}

/// The time that has passed since `since`.
pub fn elapsed_since(since: u64, now: u64) -> (time: u64)
    ensures
        time == elapsed(since, now),
{
    if now >= since {
        now - since
    } else {
        0
    }
}

/// A moment one second before `now`, or the start of the clock.
pub fn one_second_before(now: u64) -> (moment: u64)
    ensures
        moment == a_second_before(now),
{
    if now >= SECOND {
        now - SECOND
    } else {
        0
    }
}

// ---------------------------------------------------------------------------
// Running state
// ---------------------------------------------------------------------------

/// Whether a session runs, what it last reported and when it was last toggled.
pub struct SessionControl {
    pub running: bool,
    pub status: String,
    pub last_toggle: u64,
}

/// The running state of a session, in mathematical terms.
#[verifier::ext_equal]
pub struct ControlState {
    pub running: bool,
    pub status: Seq<char>,
    pub last_toggle: u64,
}

impl View for SessionControl {
    type V = ControlState;

    open spec fn view(&self) -> ControlState {
        ControlState {
            running: self.running,
            status: self.status@,
            last_toggle: self.last_toggle,
        }
    }
}

/// The outcome of a worker, in mathematical terms.
pub open spec fn outcome(result: Result<(), String>) -> Result<(), Seq<char>> {
    match result {
        Ok(()) => Ok(()),
        Err(error) => Err(error@),
    }
}

impl ControlState {
    /// A session that was never started and can be started at once.
    pub open spec fn idle(now: u64) -> ControlState {
        ControlState { running: false, status: "Not started."@, last_toggle: a_second_before(now) }
    }

    /// Whether the button of the session reacts.
    pub open spec fn debounced(self, now: u64) -> bool {
        elapsed(self.last_toggle, now) > DEBOUNCE
    }

    /// The session as the user starts it.
    pub open spec fn started(self, now: u64, status: Seq<char>) -> ControlState {
        ControlState { running: true, status, last_toggle: now }
    }

    /// The session as the user stops it.
    pub open spec fn stopped(self, now: u64) -> ControlState {
        ControlState { running: false, status: "Stopping..."@, last_toggle: now }
    }

    /// The session after its worker has ended.
    pub open spec fn finished(self, outcome: Result<(), Seq<char>>) -> ControlState {
        ControlState {
            running: false,
            status: match outcome {
                Ok(()) => "Stopped."@,
                Err(error) => "Error: "@ + friendly(error),
            },
            last_toggle: self.last_toggle,
        }
    }

    /// The session after its worker could not be started.
    pub open spec fn failed(self, message: Seq<char>) -> ControlState {
        ControlState { running: false, status: message, last_toggle: self.last_toggle }
    }
}

impl SessionControl {
    /// A session that was never started and can be started at once.
    pub fn idle(now: u64) -> (control: Self)
        ensures
            control@ == ControlState::idle(now),
    {
        SessionControl {
            running: false,
            status: "Not started.".to_string(),
            last_toggle: one_second_before(now),
        }
    }

    /// Whether the button of the session reacts.
    pub fn debounce_ready(&self, now: u64) -> (ready: bool)
        ensures
            ready == self@.debounced(now),
    {
        elapsed_since(self.last_toggle, now) > DEBOUNCE
    }

    /// Starts the session, as far as its state goes.
    pub fn start(&mut self, now: u64, status: String)
        ensures
            final(self)@ == old(self)@.started(now, status@),
    {
        self.last_toggle = now;
        self.running = true;
        self.status = status;
    }

    /// Asks the worker of the session to stop.
    pub fn stop(&mut self, now: u64)
        ensures
            final(self)@ == old(self)@.stopped(now),
    {
        self.last_toggle = now;
        self.running = false;
        self.status = "Stopping...".to_string();
    }

    /// Takes in the outcome of the worker.  An error is explained in the status
    /// line and handed back for the banner.
    pub fn finish(&mut self, result: &Result<(), String>) -> (banner: Option<String>)
        ensures
            final(self)@ == old(self)@.finished(outcome(*result)),
            banner is Some <==> result is Err,
            banner matches Some(text) ==> text@ == friendly(result->Err_0@),
    {
        self.running = false;
        match result {
            Ok(()) => {
                self.status = "Stopped.".to_string();
                None
            },
            Err(error) => {
                let text = friendly_error(error.as_str());
                self.status = join2("Error: ", text.as_str());
                Some(text)
            },
        }
    }

    /// Takes in that the worker could not be started.
    pub fn fail(&mut self, message: &str)
        ensures
            final(self)@ == old(self)@.failed(message@),
    {
        self.running = false;
        self.status = message.to_string();
    }
}

/// A session that was just toggled ignores its button; a new one does not,
/// once the clock has run for a second.
pub proof fn lemma_toggling_disables_the_button(state: ControlState, now: u64, status: Seq<char>)
    ensures
        !state.started(now, status).debounced(now),
        !state.stopped(now).debounced(now),
        now >= SECOND ==> ControlState::idle(now).debounced(now),
{
}

/// A session that the user stopped and whose worker then ended without an error
/// is idle and says so.
pub proof fn lemma_stop_then_finish(state: ControlState, now: u64)
    ensures
        state.stopped(now).finished(Ok(())) == (ControlState {
            running: false,
            status: "Stopped."@,
            last_toggle: now,
        }),
{
}

// ---------------------------------------------------------------------------
// Sessions
// ---------------------------------------------------------------------------

/// A session with the configuration `C`.
pub struct Session<C> {
    pub id: u64,
    pub control: SessionControl,
    pub config: C,
}

impl<C> Session<C> {
    /// Gives the session another configuration, unless it runs.
    pub fn reconfigure(&mut self, config: C)
        ensures
            final(self).id == old(self).id,
            final(self).control == old(self).control,
            final(self).config == if old(self).control.running {
                old(self).config
            } else {
                config
            },
    {
        if !self.control.running {
            self.config = config;
        }
    }
}

/// How many of some sessions run.
pub open spec fn running_count<C>(sessions: Seq<Session<C>>) -> nat
    decreases sessions.len(),
{
    if sessions.len() == 0 {
        0
    } else {
        running_count(sessions.drop_last()) + if sessions.last().control.running {
            1nat
        } else {
            0nat
        }
    }
}

/// Whether one of some sessions runs.
pub open spec fn some_running<C>(sessions: Seq<Session<C>>) -> bool {
    exists|i: int| 0 <= i < sessions.len() && (#[trigger] sessions[i]).control.running
}

/// The identities of some sessions.
pub open spec fn ids<C>(sessions: Seq<Session<C>>) -> Seq<u64> {
    sessions.map_values(|s: Session<C>| s.id)
}

/// There are no more running sessions than sessions, and none exactly where
/// none runs.
pub proof fn lemma_running_count<C>(sessions: Seq<Session<C>>)
    ensures
        running_count(sessions) <= sessions.len(),
        running_count(sessions) == 0 <==> !some_running(sessions),
    decreases sessions.len(),
{
    if sessions.len() > 0 {
        let rest = sessions.drop_last();
        lemma_running_count(rest);
        if some_running(rest) {
            let i = choose|i: int| 0 <= i < rest.len() && (#[trigger] rest[i]).control.running;
            assert(sessions[i].control.running);
        }
        if sessions.last().control.running {
            assert(sessions[sessions.len() - 1].control.running);
        }
        if some_running(sessions) && !sessions.last().control.running {
            let i = choose|i: int|
                0 <= i < sessions.len() && (#[trigger] sessions[i]).control.running;
            assert(rest[i].control.running);
        }
    }
}

/// Counts the running sessions.
pub fn count_running<C>(sessions: &Vec<Session<C>>) -> (count: usize)
    ensures
        count == running_count(sessions@),
        count <= sessions@.len(),
{
    let mut count: usize = 0;
    let mut i: usize = 0;
    while i < sessions.len()
        invariant
            i <= sessions@.len(),
            count == running_count(sessions@.take(i as int)),
            count <= i,
        decreases sessions.len() - i,
    {
        assert(sessions@.take(i + 1).drop_last() =~= sessions@.take(i as int));
        if sessions[i].control.running {
            count = count + 1;
        }
        i = i + 1;
    }
    assert(sessions@.take(i as int) =~= sessions@);
    count
}

/// Whether one of the sessions runs.
pub fn any_running<C>(sessions: &Vec<Session<C>>) -> (yes: bool)
    ensures
        yes == some_running(sessions@),
{
    let mut i: usize = 0;
    while i < sessions.len()
        invariant
            i <= sessions@.len(),
            forall|j: int| 0 <= j < i ==> !(#[trigger] sessions@[j]).control.running,
        decreases sessions.len() - i,
    {
        if sessions[i].control.running {
            return true;
        }
        i = i + 1;
    }
    false
}

/// The place of the first session with an identity.
pub open spec fn place_of<C>(sessions: Seq<Session<C>>, id: u64) -> Option<int>
    decreases sessions.len(),
{
    if sessions.len() == 0 {
        None
    } else {
        match place_of(sessions.drop_last(), id) {
            Some(i) => Some(i),
            None => if sessions.last().id == id {
                Some(sessions.len() - 1)
            } else {
                None
            },
        }
    }
}

/// Finds the first session with an identity.
pub fn find_session<C>(sessions: &Vec<Session<C>>, id: u64) -> (found: Option<usize>)
    ensures
        found is Some <==> place_of(sessions@, id) is Some,
        found matches Some(i) ==> i < sessions@.len() && place_of(sessions@, id) == Some(i as int),
{
    let mut i: usize = 0;
    while i < sessions.len()
        invariant
            i <= sessions@.len(),
            place_of(sessions@.take(i as int), id) is None,
        decreases sessions.len() - i,
    {
        assert(sessions@.take(i + 1).drop_last() =~= sessions@.take(i as int));
        if sessions[i].id == id {
            proof {
                lemma_place_is_stable(sessions@, i + 1, id);
            }
            return Some(i);
        }
        i = i + 1;
    }
    assert(sessions@.take(i as int) =~= sessions@);
    None
}

proof fn lemma_place_is_stable<C>(sessions: Seq<Session<C>>, k: int, id: u64)
    requires
        0 <= k <= sessions.len(),
        place_of(sessions.take(k), id) is Some,
    ensures
        place_of(sessions, id) == place_of(sessions.take(k), id),
    decreases sessions.len(),
{
    if k == sessions.len() {
        assert(sessions.take(k) =~= sessions);
    } else {
        assert(sessions.drop_last().take(k) =~= sessions.take(k));
        lemma_place_is_stable(sessions.drop_last(), k, id);
    }
}

/// Where a session is found, it has the identity that was sought and none
/// before it has.
pub proof fn lemma_place_of<C>(sessions: Seq<Session<C>>, id: u64)
    ensures
        place_of(sessions, id) matches Some(i) ==> 0 <= i < sessions.len() && sessions[i].id == id
            && (forall|j: int| 0 <= j < i ==> (#[trigger] sessions[j]).id != id),
        place_of(sessions, id) is None ==> (forall|j: int|
            0 <= j < sessions.len() ==> (#[trigger] sessions[j]).id != id),
    decreases sessions.len(),
{
    if sessions.len() > 0 {
        let rest = sessions.drop_last();
        lemma_place_of(rest, id);
        assert forall|j: int| 0 <= j < rest.len() implies #[trigger] sessions[j] == rest[j] by {}
    }
}

/// Whether the session at a place may be removed.
pub open spec fn removable<C>(sessions: Seq<Session<C>>, index: usize) -> bool {
    index < sessions.len() && !sessions[index as int].control.running
}

/// Takes a session out of its list, unless it runs.
pub fn remove_idle<C>(sessions: &mut Vec<Session<C>>, index: usize) -> (removed: Option<
    Session<C>,
>)
    ensures
        removed is Some <==> removable(old(sessions)@, index),
        removed matches Some(session) ==> session == old(sessions)@[index as int]
            && final(sessions)@ == old(sessions)@.remove(index as int),
        removed is None ==> final(sessions)@ == old(sessions)@,
{
    if index < sessions.len() && !sessions[index].control.running {
        Some(sessions.remove(index))
    } else {
        None
    }
}

/// A session with its worker told to stop and all else left alone.
pub open spec fn halted<C>(session: Session<C>) -> Session<C> {
    Session {
        control: SessionControl { running: false, ..session.control },
        ..session
    }
}

/// Tells the workers of all sessions to stop, as the application does when it
/// closes.
pub fn halt_all<C>(sessions: &mut Vec<Session<C>>)
    ensures
        final(sessions)@ == old(sessions)@.map_values(|s: Session<C>| halted(s)),
        !some_running(final(sessions)@),
{
    let mut i: usize = 0;
    while i < sessions.len()
        invariant
            i <= sessions@.len(),
            sessions@.len() == old(sessions)@.len(),
            forall|j: int| 0 <= j < i ==> #[trigger] sessions@[j] == halted(old(sessions)@[j]),
            forall|j: int| i <= j < sessions@.len() ==> sessions@[j] == old(sessions)@[j],
        decreases sessions.len() - i,
    {
        sessions[i].control.running = false;
        i = i + 1;
    }
    assert(sessions@ =~= old(sessions)@.map_values(|s: Session<C>| halted(s)));
}

// ---------------------------------------------------------------------------
// Numbering
// ---------------------------------------------------------------------------

/// The identity of the session that is added after `k` others, counted from
/// `next` as far as the numbers reach.
pub open spec fn nth_id(next: u64, k: nat) -> u64 {
    if next + k <= u64::MAX {
        (next + k) as u64
    } else {
        u64::MAX
    }
}

/// Whether sessions are idle ones with these configurations, numbered from
/// `next` on.
pub open spec fn are_loaded<C>(
    sessions: Seq<Session<C>>,
    configs: Seq<C>,
    next: u64,
    now: u64,
) -> bool {
    &&& sessions.len() == configs.len()
    &&& forall|k: int|
        0 <= k < sessions.len() ==> {
            &&& (#[trigger] sessions[k]).id == nth_id(next, k as nat)
            &&& sessions[k].control@ == ControlState::idle(now)
            &&& sessions[k].config == configs[k]
        }
}

/// Makes idle sessions with some configurations.
pub fn load_sessions<C>(configs: Vec<C>, next_id: &mut u64, now: u64) -> (sessions: Vec<Session<C>>)
    ensures
        *final(next_id) == nth_id(*old(next_id), configs@.len()),
        are_loaded(sessions@, configs@, *old(next_id), now),
{
    let mut sessions: Vec<Session<C>> = Vec::new();
    for config in items: configs
        invariant
            items.seq() == configs@,
            sessions@.len() == items.index(),
            *next_id == nth_id(*old(next_id), items.index() as nat),
            forall|k: int|
                0 <= k < sessions@.len() ==> {
                    &&& (#[trigger] sessions@[k]).id == nth_id(*old(next_id), k as nat)
                    &&& sessions@[k].control@ == ControlState::idle(now)
                    &&& sessions@[k].config == configs@[k]
                },
    {
        let id: u64 = *next_id;
        *next_id = id.saturating_add(1);
        sessions.push(Session { id, control: SessionControl::idle(now), config });
    }
    sessions
}

// ---------------------------------------------------------------------------
// Banners
// ---------------------------------------------------------------------------

/// The messages across the top of the window.
pub struct Banners {
    pub error: Option<String>,
    pub info: Option<String>,
}

impl Banners {
    /// No messages.
    pub fn new() -> (banners: Self)
        ensures
            banners.error is None,
            banners.info is None,
    {
        Banners { error: None, info: None }
    }

    /// Shows an error where there is one; where there is none, the banner
    /// stays as it is.
    pub fn report(&mut self, error: Option<String>)
        ensures
            final(self).error == if error is Some {
                error
            } else {
                old(self).error
            },
            final(self).info == old(self).info,
    {
        if error.is_some() {
            self.error = error;
        }
    }
}

// ---------------------------------------------------------------------------
// Workers
// ---------------------------------------------------------------------------

/// Whether nothing but the running state of the session with an identity has
/// changed, and that as `change` says.
pub open spec fn control_changed<C>(
    before: Seq<Session<C>>,
    after: Seq<Session<C>>,
    id: u64,
    change: spec_fn(ControlState) -> ControlState,
) -> bool {
    &&& after.len() == before.len()
    &&& forall|i: int|
        0 <= i < before.len() ==> if place_of(before, id) == Some(i) {
            &&& (#[trigger] after[i]).id == before[i].id
            &&& after[i].config == before[i].config
            &&& after[i].control@ == change(before[i].control@)
        } else {
            after[i] == before[i]
        }
}

/// The change when a worker ends.
pub open spec fn ending(outcome: Result<(), Seq<char>>) -> spec_fn(ControlState) -> ControlState {
    |control: ControlState| control.finished(outcome)
}

/// The change when a worker cannot be started.
pub open spec fn failing(message: Seq<char>) -> spec_fn(ControlState) -> ControlState {
    |control: ControlState| control.failed(message)
}

/// Takes in that the worker of a session has ended.  An error is reported even
/// if the session is gone.
pub fn finish_worker<C>(
    sessions: &mut Vec<Session<C>>,
    id: u64,
    result: &Result<(), String>,
    banners: &mut Banners,
)
    ensures
        control_changed(old(sessions)@, final(sessions)@, id, ending(outcome(*result))),
        final(banners).info == old(banners).info,
        match *result {
            Ok(()) => final(banners).error == old(banners).error,
            Err(error) => option_text(final(banners).error) == Some(friendly(error@)),
        },
{
    proof {
        lemma_place_of(sessions@, id);
    }
    match find_session(sessions, id) {
        Some(index) => {
            let banner = sessions[index].control.finish(result);
            banners.report(banner);
        },
        None => match result {
            Ok(()) => {},
            Err(error) => {
                banners.error = Some(friendly_error(error.as_str()));
            },
        },
    }
}

/// Takes in that the worker of a session could not be started.
pub fn fail_worker<C>(
    sessions: &mut Vec<Session<C>>,
    id: u64,
    lead: &str,
    error: &str,
    banners: &mut Banners,
)
    ensures
        control_changed(old(sessions)@, final(sessions)@, id, failing(lead@ + error@)),
        final(banners).info == old(banners).info,
        option_text(final(banners).error) == Some(lead@ + error@),
{
    proof {
        lemma_place_of(sessions@, id);
    }
    let message = join2(lead, error);
    match find_session(sessions, id) {
        Some(index) => {
            sessions[index].control.fail(message.as_str());
        },
        None => {},
    }
    banners.error = Some(message);
}

/// Time that has passed leads from the one moment to the other.
pub proof fn lemma_elapsed(since: u64, now: u64)
    ensures
        since <= now ==> since + elapsed(since, now) == now,
        since > now ==> elapsed(since, now) == 0,
        now >= 1_000_000_000 ==> elapsed(a_second_before(now), now) == 1_000_000_000,
        a_second_before(now) <= now,
{
}

/// For four tenths of a second after it was toggled, and no longer, a session
/// ignores its button.
pub proof fn lemma_button_comes_back(state: ControlState, at: u64, time: u64, status: Seq<char>)
    requires
        at + time <= u64::MAX,
    ensures
        state.started(at, status).debounced((at + time) as u64) <==> time > 400_000_000,
        state.stopped(at).debounced((at + time) as u64) <==> time > 400_000_000,
{
}

/// A session runs from its start until it is stopped, ends or fails; what it
/// reports is what it was told, and its button goes by the user alone.
pub proof fn lemma_course_of_a_session(
    state: ControlState,
    now: u64,
    status: Seq<char>,
    outcome: Result<(), Seq<char>>,
)
    ensures
        state.started(now, status).running,
        state.started(now, status).status == status,
        !state.stopped(now).running,
        !ControlState::idle(now).running,
        !state.finished(outcome).running,
        !state.failed(status).running,
        state.failed(status).status == status,
        state.finished(outcome).last_toggle == state.last_toggle,
        state.failed(status).last_toggle == state.last_toggle,
        outcome matches Err(error) ==> crate::text::contains_text(
            state.finished(outcome).status,
            friendly(error),
        ),
        outcome is Ok ==> state.finished(outcome).status == "Stopped."@,
{
    if let Err(error) = outcome {
        let shown = friendly(error);
        crate::text::lemma_what_is_found("Error: "@, shown, Seq::empty());
        assert("Error: "@ + shown + Seq::<char>::empty() =~= "Error: "@ + shown);
    }
}

/// The running sessions of two lists add up, and one session counts exactly if
/// it runs.
pub proof fn lemma_running_counts_add_up<C>(a: Seq<Session<C>>, b: Seq<Session<C>>, s: Session<C>)
    ensures
        running_count(a + b) == running_count(a) + running_count(b),
        running_count(seq![s]) == if s.control.running {
            1nat
        } else {
            0nat
        },
    decreases b.len(),
{
    let one = seq![s];
    assert(one.drop_last() =~= Seq::<Session<C>>::empty());
    assert(running_count(one.drop_last()) == 0);
    if b.len() == 0 {
        assert(a + b =~= a);
    } else {
        lemma_running_counts_add_up(a, b.drop_last(), s);
        assert((a + b).drop_last() =~= a + b.drop_last());
        assert((a + b).last() == b.last());
    }
}

/// The session at a place may be removed exactly if there is one that does not
/// run.
pub proof fn lemma_removable<C>(before: Seq<Session<C>>, s: Session<C>, after: Seq<Session<C>>)
    requires
        before.len() <= usize::MAX,
    ensures
        removable(before.push(s) + after, before.len() as usize) <==> !s.control.running,
        !removable(before, before.len() as usize),
{
    assert((before.push(s) + after)[before.len() as int] == s);
}

/// Numbers are given out one by one, and as many at once as one by one.
pub proof fn lemma_numbers_are_given_out(next: u64, a: nat, b: nat)
    ensures
        nth_id(next, 0) == next,
        nth_id(nth_id(next, a), b) == nth_id(next, a + b),
        next + a <= u64::MAX ==> nth_id(next, a) - next == a,
        nth_id(next, a) >= next,
{
}

/// The worker that ends belongs to one session, which no longer runs; all other
/// sessions are as before.
pub proof fn lemma_one_session_changes<C>(
    before: Seq<Session<C>>,
    after: Seq<Session<C>>,
    id: u64,
    result: Result<(), Seq<char>>,
    message: Seq<char>,
    i: int,
)
    requires
        control_changed(before, after, id, ending(result)) || control_changed(
            before,
            after,
            id,
            failing(message),
        ),
        0 <= i < before.len(),
    ensures
        after.len() == before.len(),
        after[i].id == before[i].id,
        after[i].config == before[i].config,
        before[i].id != id ==> after[i] == before[i],
        before[i].id == id && (forall|j: int| 0 <= j < i ==> (#[trigger] before[j]).id != id)
            ==> !after[i].control.running,
{
    lemma_place_of(before, id);
    assert(before[i].id == before[i].id);
    let there = after[i];
    if place_of(before, id) == Some(i) {
        assert(!after[i].control@.running);
    }
}

/// The view of a running state tells all of it.
pub proof fn lemma_control_view_is_complete(a: SessionControl, b: SessionControl)
    requires
        a@ == b@,
    ensures
        a.running == b.running,
        a.status@ == b.status@,
        a.last_toggle == b.last_toggle,
{
}

/// Halting takes the flag down and nothing else.
pub proof fn lemma_halting<C>(session: Session<C>)
    ensures
        !halted(session).control.running,
        halted(session).control.status == session.control.status,
        halted(session).control.last_toggle == session.control.last_toggle,
        halted(session).id == session.id,
        halted(session).config == session.config,
{
}

/// Loaded sessions stand in the order of their configurations, are numbered one
/// after the other, and do not run.
pub proof fn lemma_loaded_sessions<C>(
    sessions: Seq<Session<C>>,
    configs: Seq<C>,
    next: u64,
    now: u64,
    k: int,
)
    requires
        are_loaded(sessions, configs, next, now),
        0 <= k < configs.len(),
    ensures
        sessions.len() == configs.len(),
        sessions[k].config == configs[k],
        !sessions[k].control.running,
        sessions[k].control.status@ == "Not started."@,
        now >= 1_000_000_000 ==> sessions[k].control.last_toggle == now - 1_000_000_000,
        next + k <= u64::MAX ==> sessions[k].id == next + k,
{
    assert(sessions[k].control@ == ControlState::idle(now));
    assert(sessions[k].control@.running == sessions[k].control.running);
}

} // verus!
