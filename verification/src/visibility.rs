//! The visibility check of an index hit, as a protocol between this library
//! and the row store. The library decides; its caller performs each action
//! against the row store and reports what happened.

use crate::locator::{block_of, slot_of, RowLocator, VisibilityError};
use vstd::prelude::*;

verus! {

/// How a check ended: whether the row version is visible under the snapshot,
/// or that this could not be found out. "Not visible" is an ordinary answer,
/// never an error.
#[derive(Clone, Copy, Debug, PartialEq, Eq, Structural)]
pub enum Outcome {
    Visible,
    NotVisible,
    Unresolvable,
}

/// The outcome that stands for the row store's verdict.
pub open spec fn verdict_outcome(visible: bool) -> Outcome {
    if visible {
        Outcome::Visible
    } else {
        Outcome::NotVisible
    }
}

impl Outcome {
    /// The outcome as an answer or an error.
    pub open spec fn as_result(&self) -> Result<bool, VisibilityError> {
        match *self {
            Outcome::Visible => Ok(true),
            Outcome::NotVisible => Ok(false),
            Outcome::Unresolvable => Err(VisibilityError::UnresolvableLocator),
        }
    }

    /// The outcome as an answer or an error.
    pub fn into_result(self) -> (result: Result<bool, VisibilityError>)
        ensures
            result == self.as_result(),
    {
        match self {
            Outcome::Visible => Ok(true),
            Outcome::NotVisible => Ok(false),
            Outcome::Unresolvable => Err(VisibilityError::UnresolvableLocator),
        }
    }
}

/// Where a check stands.
#[derive(Clone, Copy, Debug, PartialEq, Eq, Structural)]
pub enum VisibilityCheck {
    /// A shared lock on the locator's page was asked for and is not yet held.
    AwaitingLock { locator: RowLocator },
    /// The lock is held, and the row store was asked for its verdict.
    AwaitingVerdict { locator: RowLocator },
    /// The lock is held, and its release was asked for.
    Releasing { locator: RowLocator, outcome: Outcome },
    /// The check is over, and no lock is held.
    Done { outcome: Outcome },
}

/// What the caller is to do next.
#[derive(Clone, Copy, Debug, PartialEq, Eq, Structural)]
pub enum StoreAction {
    /// Read the page of this block and take a shared lock on it.
    AcquireShared { block: u32 },
    /// Find the live row version at the locator, following the update chain,
    /// and test it against the snapshot.
    Probe { locator: RowLocator },
    /// Release the lock on the page of this block.
    Release { block: u32 },
    /// Hand the outcome to whoever asked.
    Finish { outcome: Outcome },
}

/// What the caller reports back.
#[derive(Clone, Copy, Debug, PartialEq, Eq, Structural)]
pub enum StoreEvent {
    /// The shared lock is now held.
    Locked,
    /// The page could not be read; no lock is held.
    PageUnreadable,
    /// The row store's verdict on the row version.
    Verdict { visible: bool },
    /// There is no row version at the locator's slot.
    SlotMissing,
    /// The lock is released.
    Released,
}

/// Whether the page lock is held in this state.
pub open spec fn lock_held(state: VisibilityCheck) -> bool {
    state is AwaitingVerdict || state is Releasing
}

/// The action that a state waits for the caller to perform.
pub open spec fn pending_action(state: VisibilityCheck) -> StoreAction {
    match state {
        VisibilityCheck::AwaitingLock { locator } => StoreAction::AcquireShared {
            block: locator.block,
        },
        VisibilityCheck::AwaitingVerdict { locator } => StoreAction::Probe { locator },
        VisibilityCheck::Releasing { locator, outcome } => StoreAction::Release {
            block: locator.block,
        },
        VisibilityCheck::Done { outcome } => StoreAction::Finish { outcome },
    }
}

/// The state in which a check of the packed locator starts.
pub open spec fn start_of(packed: u64) -> VisibilityCheck {
    if slot_of(packed) == 0 {
        VisibilityCheck::Done { outcome: Outcome::Unresolvable }
    } else {
        VisibilityCheck::AwaitingLock {
            locator: RowLocator { block: block_of(packed) as u32, slot: slot_of(packed) as u16 },
        }
    }
}

/// The state that follows `state` on `event`. An event that the state does not
/// wait for changes nothing.
pub open spec fn next_state(state: VisibilityCheck, event: StoreEvent) -> VisibilityCheck {
    match state {
        VisibilityCheck::AwaitingLock { locator } => match event {
            StoreEvent::Locked => VisibilityCheck::AwaitingVerdict { locator },
            StoreEvent::PageUnreadable => VisibilityCheck::Done {
                outcome: Outcome::Unresolvable,
            },
            _ => state,
        },
        VisibilityCheck::AwaitingVerdict { locator } => match event {
            StoreEvent::Verdict { visible } => VisibilityCheck::Releasing {
                locator,
                outcome: verdict_outcome(visible),
            },
            StoreEvent::SlotMissing => VisibilityCheck::Releasing {
                locator,
                outcome: Outcome::Unresolvable,
            },
            _ => state,
        },
        VisibilityCheck::Releasing { locator, outcome } => match event {
            StoreEvent::Released => VisibilityCheck::Done { outcome },
            _ => state,
        },
        VisibilityCheck::Done { outcome } => state,
    }
}

/// The state after a whole sequence of events.
pub open spec fn run(state: VisibilityCheck, events: Seq<StoreEvent>) -> VisibilityCheck
    decreases events.len(),
{
    if events.len() == 0 {
        state
    } else {
        next_state(run(state, events.drop_last()), events.last())
    }
}

/// How often the lock is taken over a sequence of events.
pub open spec fn acquisitions(state: VisibilityCheck, events: Seq<StoreEvent>) -> nat
    decreases events.len(),
{
    if events.len() == 0 {
        0
    } else {
        let before = run(state, events.drop_last());
        acquisitions(state, events.drop_last()) + if !lock_held(before) && lock_held(
            next_state(before, events.last()),
        ) {
            1nat
        } else {
            0nat
        }
    }
}

/// How often the lock is released over a sequence of events.
pub open spec fn releases(state: VisibilityCheck, events: Seq<StoreEvent>) -> nat
    decreases events.len(),
{
    if events.len() == 0 {
        0
    } else {
        let before = run(state, events.drop_last());
        releases(state, events.drop_last()) + if lock_held(before) && !lock_held(
            next_state(before, events.last()),
        ) {
            1nat
        } else {
            0nat
        }
    }
}

impl VisibilityCheck {
    /// Starts the check of a packed locator. A locator that names no position
    /// ends the check at once, with an error and without any lock.
    pub fn begin(ctid: u64) -> (started: (VisibilityCheck, StoreAction))
        ensures
            started.0 == start_of(ctid),
            started.1 == pending_action(started.0),
    {
        match RowLocator::from_u64(ctid) {
            Ok(locator) => (
                VisibilityCheck::AwaitingLock { locator },
                StoreAction::AcquireShared { block: locator.block },
            ),
            Err(_) => (
                VisibilityCheck::Done { outcome: Outcome::Unresolvable },
                StoreAction::Finish { outcome: Outcome::Unresolvable },
            ),
        }
    }

    /// Takes the caller's report and says what to do next.
    pub fn advance(self, event: StoreEvent) -> (stepped: (VisibilityCheck, StoreAction))
        ensures
            stepped.0 == next_state(self, event),
            stepped.1 == pending_action(stepped.0),
    {
        let next = match self {
            VisibilityCheck::AwaitingLock { locator } => match event {
                StoreEvent::Locked => VisibilityCheck::AwaitingVerdict { locator },
                StoreEvent::PageUnreadable => VisibilityCheck::Done {
                    outcome: Outcome::Unresolvable,
                },
                _ => self,
            },
            VisibilityCheck::AwaitingVerdict { locator } => match event {
                StoreEvent::Verdict { visible } => VisibilityCheck::Releasing {
                    locator,
                    outcome: if visible {
                        Outcome::Visible
                    } else {
                        Outcome::NotVisible
                    },
                },
                StoreEvent::SlotMissing => VisibilityCheck::Releasing {
                    locator,
                    outcome: Outcome::Unresolvable,
                },
                _ => self,
            },
            VisibilityCheck::Releasing { locator, outcome } => match event {
                StoreEvent::Released => VisibilityCheck::Done { outcome },
                _ => self,
            },
            VisibilityCheck::Done { outcome } => self,
        };
        let action = next.action();
        (next, action)
    }

    /// The action that this state waits for.
    pub fn action(&self) -> (action: StoreAction)
        ensures
            action == pending_action(*self),
    {
        match *self {
            VisibilityCheck::AwaitingLock { locator } => StoreAction::AcquireShared {
                block: locator.block,
            },
            VisibilityCheck::AwaitingVerdict { locator } => StoreAction::Probe { locator },
            VisibilityCheck::Releasing { locator, outcome } => StoreAction::Release {
                block: locator.block,
            },
            VisibilityCheck::Done { outcome } => StoreAction::Finish { outcome },
        }
    }

    /// The outcome, once the check is over.
    pub fn outcome(&self) -> (outcome: Option<Outcome>)
        ensures
            outcome == match *self {
                VisibilityCheck::Done { outcome } => Some(outcome),
                _ => None::<Outcome>,
            },
    {
        match *self {
            VisibilityCheck::Done { outcome } => Some(outcome),
            _ => None,
        }
    }
}

/// One step keeps the lock's discipline: a check never ends with the lock
/// held; the lock is taken only when it is granted and given up only when
/// its release is reported; and while it is held, whatever the row store
/// answers to the probe, the next action is the release.
pub proof fn law_step_lock_discipline(state: VisibilityCheck, event: StoreEvent)
    ensures
        next_state(state, event) is Done ==> !lock_held(next_state(state, event)),
        !lock_held(state) && lock_held(next_state(state, event)) ==> state is AwaitingLock && event
            == StoreEvent::Locked,
        lock_held(state) && !lock_held(next_state(state, event)) ==> state is Releasing && event
            == StoreEvent::Released,
        state is AwaitingVerdict && (event is Verdict || event is SlotMissing) ==> pending_action(
            next_state(state, event),
        ) is Release && next_state(state, event) is Releasing,
        pending_action(next_state(state, event)) is Finish <==> next_state(state, event) is Done,
{
}

/// Over any sequence of events from the start of a check, the lock is taken
/// at most once, and it is released exactly as often as it was taken but for
/// the one time that it is still held. So a check that has ended has
/// released every lock that it took.
pub proof fn law_lock_released(ctid: u64, events: Seq<StoreEvent>)
    ensures
        acquisitions(start_of(ctid), events) <= 1,
        acquisitions(start_of(ctid), events) == releases(start_of(ctid), events) + if lock_held(
            run(start_of(ctid), events),
        ) {
            1nat
        } else {
            0nat
        },
        run(start_of(ctid), events) is AwaitingLock ==> acquisitions(start_of(ctid), events) == 0,
        run(start_of(ctid), events) is Done ==> releases(start_of(ctid), events) == acquisitions(
            start_of(ctid),
            events,
        ),
    decreases events.len(),
{
    if events.len() > 0 {
        law_lock_released(ctid, events.drop_last());
        law_step_lock_discipline(run(start_of(ctid), events.drop_last()), events.last());
    }
}

/// The check is a function of the locator and of what the row store
/// reports: a resolvable locator whose page is locked, probed and released
/// ends with the row store's verdict, be it visible or not.
pub proof fn law_verdict_is_outcome(ctid: u64, visible: bool)
    requires
        slot_of(ctid) != 0,
    ensures
        run(
            start_of(ctid),
            seq![StoreEvent::Locked, StoreEvent::Verdict { visible }, StoreEvent::Released],
        ) == (VisibilityCheck::Done { outcome: verdict_outcome(visible) }),
{
    let events = seq![StoreEvent::Locked, StoreEvent::Verdict { visible }, StoreEvent::Released];
    let two = seq![StoreEvent::Locked, StoreEvent::Verdict { visible }];
    let one = seq![StoreEvent::Locked];
    assert(events.drop_last() =~= two);
    assert(two.drop_last() =~= one);
    assert(one.drop_last() =~= Seq::<StoreEvent>::empty());
    assert(run(start_of(ctid), Seq::<StoreEvent>::empty()) == start_of(ctid));
    assert(run(start_of(ctid), one) is AwaitingVerdict);
    assert(run(start_of(ctid), two) is Releasing);
}

/// A failure to find the row version is an error, never "not visible": a
/// locator without a position, an unreadable page and a missing slot all end
/// in `UnresolvableLocator`, the last of them only after the release.
pub proof fn law_failures_are_errors(ctid: u64)
    ensures
        slot_of(ctid) == 0 ==> start_of(ctid) == (VisibilityCheck::Done {
            outcome: Outcome::Unresolvable,
        }),
        slot_of(ctid) != 0 ==> next_state(start_of(ctid), StoreEvent::PageUnreadable) == (
        VisibilityCheck::Done { outcome: Outcome::Unresolvable }),
        slot_of(ctid) != 0 ==> next_state(
            next_state(
                next_state(start_of(ctid), StoreEvent::Locked),
                StoreEvent::SlotMissing,
            ),
            StoreEvent::Released,
        ) == (VisibilityCheck::Done { outcome: Outcome::Unresolvable }),
{
}

/// What the row store has to say about one locator under one snapshot.
#[derive(Clone, Copy, Debug, PartialEq, Eq, Structural)]
pub struct StoreAnswers {
    /// Whether the locator's page can be read and locked.
    pub page_readable: bool,
    /// The verdict on the row version at the locator's slot; `None` where the
    /// slot holds no row version.
    pub verdict: Option<bool>,
}

/// The answer of a check: the row store's verdict where the locator names a
/// position, the page can be read and the slot holds a row version; the error
/// otherwise.
pub open spec fn check_result(ctid: u64, answers: StoreAnswers) -> Result<bool, VisibilityError> {
    if slot_of(ctid) == 0 || !answers.page_readable {
        Err(VisibilityError::UnresolvableLocator)
    } else {
        match answers.verdict {
            Some(visible) => Ok(visible),
            None => Err(VisibilityError::UnresolvableLocator),
        }
    }
}

/// The event with which a row store of these answers meets an action.
pub open spec fn answer_to(action: StoreAction, answers: StoreAnswers) -> StoreEvent {
    match action {
        StoreAction::AcquireShared { block } => if answers.page_readable {
            StoreEvent::Locked
        } else {
            StoreEvent::PageUnreadable
        },
        StoreAction::Probe { locator } => match answers.verdict {
            Some(visible) => StoreEvent::Verdict { visible },
            None => StoreEvent::SlotMissing,
        },
        _ => StoreEvent::Released,
    }
}

/// How many actions a state is away from the end of its check.
pub open spec fn steps_left(state: VisibilityCheck) -> nat {
    match state {
        VisibilityCheck::AwaitingLock { locator } => 3,
        VisibilityCheck::AwaitingVerdict { locator } => 2,
        VisibilityCheck::Releasing { locator, outcome } => 1,
        VisibilityCheck::Done { outcome } => 0,
    }
}

/// Whether a state can be met in a check of `ctid` against a row store of
/// these answers.
pub open spec fn on_course(state: VisibilityCheck, ctid: u64, answers: StoreAnswers) -> bool {
    match state {
        VisibilityCheck::AwaitingLock { locator } => slot_of(ctid) != 0,
        VisibilityCheck::AwaitingVerdict { locator } => slot_of(ctid) != 0 && answers.page_readable,
        VisibilityCheck::Releasing { locator, outcome } => outcome.as_result() == check_result(
            ctid,
            answers,
        ),
        VisibilityCheck::Done { outcome } => outcome.as_result() == check_result(ctid, answers),
    }
}

/// Runs the whole check of `ctid` against a row store of the given answers:
/// every action is met with the row store's answer until the check is over.
/// The result depends on the locator and the answers alone.
pub fn ctid_satisfies_snapshot(ctid: u64, answers: StoreAnswers) -> (result: Result<
    bool,
    VisibilityError,
>)
    ensures
        result == check_result(ctid, answers),
{
    let started = VisibilityCheck::begin(ctid);
    let mut state = started.0;
    let mut action = started.1;
    loop
        invariant
            action == pending_action(state),
            on_course(state, ctid, answers),
        decreases steps_left(state),
    {
        let event = match action {
            StoreAction::AcquireShared { block } => if answers.page_readable {
                StoreEvent::Locked
            } else {
                StoreEvent::PageUnreadable
            },
            StoreAction::Probe { locator } => match answers.verdict {
                Some(visible) => StoreEvent::Verdict { visible },
                None => StoreEvent::SlotMissing,
            },
            StoreAction::Release { block } => StoreEvent::Released,
            StoreAction::Finish { outcome } => {
                return outcome.into_result();
            },
        };
        assert(event == answer_to(action, answers));
        let stepped = state.advance(event);
        state = stepped.0;
        action = stepped.1;
    }
}

/// Against a row store that answers each action, every step brings the check
/// nearer to its end, and the check stays on course for the answer that the
/// locator and the row store's answers determine.
pub proof fn law_check_makes_progress(state: VisibilityCheck, ctid: u64, answers: StoreAnswers)
    requires
        on_course(state, ctid, answers),
        !(state is Done),
    ensures
        steps_left(next_state(state, answer_to(pending_action(state), answers))) < steps_left(
            state,
        ),
        on_course(next_state(state, answer_to(pending_action(state), answers)), ctid, answers),
{
}

} // verus!
