use search_projection::locator::{RowLocator, VisibilityError};
use search_projection::visibility::{
    ctid_satisfies_snapshot, Outcome, StoreAction, StoreAnswers, StoreEvent, VisibilityCheck,
};

#[test]
fn locator_packs_block_above_slot() {
    assert_eq!(RowLocator { block: 0, slot: 1 }.to_u64(), 1);
    assert_eq!(RowLocator { block: 1, slot: 0 }.to_u64(), 4294967296);
    assert_eq!(RowLocator { block: 3, slot: 7 }.to_u64(), 3 * 4294967296 + 7);
    assert_eq!(RowLocator { block: u32::MAX, slot: u16::MAX }.to_u64(), 0xffff_ffff_0000_ffff);
}

#[test]
fn packed_locator_resolves_to_its_position() {
    assert_eq!(RowLocator::from_u64(1), Ok(RowLocator { block: 0, slot: 1 }));
    assert_eq!(
        RowLocator::from_u64(3 * 4294967296 + 7),
        Ok(RowLocator { block: 3, slot: 7 })
    );
    assert_eq!(
        RowLocator::from_u64(u64::MAX),
        Ok(RowLocator { block: u32::MAX, slot: u16::MAX })
    );
    assert_eq!(RowLocator::from_u64(0x0000_0002_abcd_0005), Ok(RowLocator { block: 2, slot: 5 }));
}

#[test]
fn slot_zero_is_unresolvable() {
    assert_eq!(RowLocator::from_u64(0), Err(VisibilityError::UnresolvableLocator));
    assert_eq!(RowLocator::from_u64(4294967296), Err(VisibilityError::UnresolvableLocator));
    assert_eq!(RowLocator::from_u64(0x10000), Err(VisibilityError::UnresolvableLocator));
}

#[test]
fn pack_and_resolve_round_trip() {
    for locator in [
        RowLocator { block: 0, slot: 1 },
        RowLocator { block: 42, slot: 65535 },
        RowLocator { block: u32::MAX, slot: 9 },
    ] {
        assert_eq!(RowLocator::from_u64(locator.to_u64()), Ok(locator));
    }
}

#[test]
fn visible_row_is_reported_after_release() {
    let locator = RowLocator { block: 3, slot: 7 };
    let (state, action) = VisibilityCheck::begin(locator.to_u64());
    assert_eq!(state, VisibilityCheck::AwaitingLock { locator });
    assert_eq!(action, StoreAction::AcquireShared { block: 3 });
    assert_eq!(state.outcome(), None);

    let (state, action) = state.advance(StoreEvent::Locked);
    assert_eq!(state, VisibilityCheck::AwaitingVerdict { locator });
    assert_eq!(action, StoreAction::Probe { locator });

    let (state, action) = state.advance(StoreEvent::Verdict { visible: true });
    assert_eq!(state, VisibilityCheck::Releasing { locator, outcome: Outcome::Visible });
    assert_eq!(action, StoreAction::Release { block: 3 });
    assert_eq!(state.outcome(), None);

    let (state, action) = state.advance(StoreEvent::Released);
    assert_eq!(state, VisibilityCheck::Done { outcome: Outcome::Visible });
    assert_eq!(action, StoreAction::Finish { outcome: Outcome::Visible });
    assert_eq!(state.outcome(), Some(Outcome::Visible));
    assert_eq!(Outcome::Visible.into_result(), Ok(true));
}

#[test]
fn invisible_row_is_an_answer() {
    let (state, _) = VisibilityCheck::begin(RowLocator { block: 0, slot: 1 }.to_u64());
    let (state, _) = state.advance(StoreEvent::Locked);
    let (state, action) = state.advance(StoreEvent::Verdict { visible: false });
    assert_eq!(action, StoreAction::Release { block: 0 });
    let (state, action) = state.advance(StoreEvent::Released);
    assert_eq!(action, StoreAction::Finish { outcome: Outcome::NotVisible });
    assert_eq!(state.outcome().unwrap().into_result(), Ok(false));
}

#[test]
fn unresolvable_locator_ends_at_once() {
    let (state, action) = VisibilityCheck::begin(4294967296);
    assert_eq!(state, VisibilityCheck::Done { outcome: Outcome::Unresolvable });
    assert_eq!(action, StoreAction::Finish { outcome: Outcome::Unresolvable });
    assert_eq!(
        Outcome::Unresolvable.into_result(),
        Err(VisibilityError::UnresolvableLocator)
    );
}

#[test]
fn unreadable_page_is_an_error_without_release() {
    let (state, _) = VisibilityCheck::begin(5);
    let (state, action) = state.advance(StoreEvent::PageUnreadable);
    assert_eq!(state, VisibilityCheck::Done { outcome: Outcome::Unresolvable });
    assert_eq!(action, StoreAction::Finish { outcome: Outcome::Unresolvable });
}

#[test]
fn missing_slot_is_an_error_after_release() {
    let (state, _) = VisibilityCheck::begin(5);
    let (state, _) = state.advance(StoreEvent::Locked);
    let (state, action) = state.advance(StoreEvent::SlotMissing);
    assert_eq!(action, StoreAction::Release { block: 0 });
    let (state, action) = state.advance(StoreEvent::Released);
    assert_eq!(state.outcome(), Some(Outcome::Unresolvable));
    assert_eq!(action, StoreAction::Finish { outcome: Outcome::Unresolvable });
}

#[test]
fn unexpected_events_change_nothing() {
    let (start, first) = VisibilityCheck::begin(5);
    assert_eq!(start.advance(StoreEvent::Released), (start, first));
    assert_eq!(start.advance(StoreEvent::Verdict { visible: true }), (start, first));
    let (locked, probe) = start.advance(StoreEvent::Locked);
    assert_eq!(locked.advance(StoreEvent::Locked), (locked, probe));
    assert_eq!(locked.advance(StoreEvent::Released), (locked, probe));
    assert_eq!(locked.advance(StoreEvent::PageUnreadable), (locked, probe));
    let (releasing, release) = locked.advance(StoreEvent::Verdict { visible: true });
    assert_eq!(releasing.advance(StoreEvent::Verdict { visible: false }), (releasing, release));
    let (done, finish) = releasing.advance(StoreEvent::Released);
    assert_eq!(done.advance(StoreEvent::Locked), (done, finish));
    assert_eq!(done.action(), finish);
}

#[test]
fn same_reports_give_the_same_outcome() {
    let run = |ctid: u64, visible: bool| {
        let (state, _) = VisibilityCheck::begin(ctid);
        let (state, _) = state.advance(StoreEvent::Locked);
        let (state, _) = state.advance(StoreEvent::Verdict { visible });
        let (state, _) = state.advance(StoreEvent::Released);
        state.outcome()
    };
    assert_eq!(run(77, true), run(77, true));
    assert_eq!(run(77, false), Some(Outcome::NotVisible));
    assert_eq!(run(77, true), Some(Outcome::Visible));
}

#[test]
fn whole_check_gives_the_verdict() {
    let answers = |page_readable, verdict| StoreAnswers { page_readable, verdict };
    let ctid = RowLocator { block: 3, slot: 7 }.to_u64();
    assert_eq!(ctid_satisfies_snapshot(ctid, answers(true, Some(true))), Ok(true));
    assert_eq!(ctid_satisfies_snapshot(ctid, answers(true, Some(false))), Ok(false));
    assert_eq!(
        ctid_satisfies_snapshot(ctid, answers(true, None)),
        Err(VisibilityError::UnresolvableLocator)
    );
    assert_eq!(
        ctid_satisfies_snapshot(ctid, answers(false, Some(true))),
        Err(VisibilityError::UnresolvableLocator)
    );
    assert_eq!(
        ctid_satisfies_snapshot(4294967296, answers(true, Some(true))),
        Err(VisibilityError::UnresolvableLocator)
    );
}
