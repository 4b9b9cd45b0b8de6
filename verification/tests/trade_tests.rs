use game_shared::item_data::BoundState;
use game_shared::trade::{
    validate_trade_binding, BopTradeWindow, CompletedTrade, TradeError, TradeItem, TradeLog,
    TradeManager, TradeOffer, TradeState, BOP_TRADE_WINDOW_SECS, TRADE_SLOT_COUNT,
};

const ALICE: u64 = 1;
const BOB: u64 = 2;
const CAROL: u64 = 3;

fn item(guid: u64) -> TradeItem {
    TradeItem { item_guid: guid, count: 1 }
}

fn open_trade(mgr: &mut TradeManager) -> u32 {
    let id = mgr.initiate_trade(ALICE, BOB, true, 100).unwrap();
    assert_eq!(mgr.accept_trade(BOB), Ok(id));
    id
}

// --- BoP trade window ---

#[test]
fn bop_window_expiry_and_remaining() {
    let w = BopTradeWindow { looted_at: 1_000, eligible_players: vec![BOB] };
    assert!(!w.is_expired(1_000));
    assert!(!w.is_expired(1_000 + BOP_TRADE_WINDOW_SECS - 1));
    assert!(w.is_expired(1_000 + BOP_TRADE_WINDOW_SECS));
    assert!(!w.is_expired(0));
    assert_eq!(w.remaining(1_000), BOP_TRADE_WINDOW_SECS);
    assert_eq!(w.remaining(5_000), 3_200);
    assert_eq!(w.remaining(100_000), 0);
}

#[test]
fn bop_window_eligibility() {
    let w = BopTradeWindow { looted_at: 0, eligible_players: vec![BOB, CAROL] };
    assert!(w.is_eligible(BOB, 10));
    assert!(!w.is_eligible(ALICE, 10));
    assert!(!w.is_eligible(BOB, BOP_TRADE_WINDOW_SECS));
}

#[test]
fn binding_rules_for_trade() {
    let w = BopTradeWindow { looted_at: 0, eligible_players: vec![BOB] };
    assert_eq!(validate_trade_binding(&BoundState::Unbound, None, BOB, 0), Ok(()));
    let bound = BoundState::Bound { character_id: ALICE };
    assert_eq!(validate_trade_binding(&bound, None, BOB, 0), Err(TradeError::ItemSoulbound));
    assert_eq!(validate_trade_binding(&bound, Some(&w), BOB, 60), Ok(()));
    assert_eq!(validate_trade_binding(&bound, Some(&w), CAROL, 60), Err(TradeError::ItemSoulbound));
    assert_eq!(
        validate_trade_binding(&bound, Some(&w), BOB, BOP_TRADE_WINDOW_SECS),
        Err(TradeError::ItemSoulbound)
    );
}

// --- Offers ---

#[test]
fn offer_slots_and_gold() {
    let mut offer = TradeOffer::default();
    assert!(offer.is_empty());
    assert_eq!(offer.set_item(0, item(10)), Ok(()));
    assert_eq!(offer.set_item(3, item(11)), Ok(()));
    assert_eq!(offer.item_count(), 2);
    assert_eq!(offer.set_item(TRADE_SLOT_COUNT, item(12)), Err(TradeError::InvalidSlot));
    assert_eq!(offer.set_item(5, item(10)), Err(TradeError::ItemAlreadyOffered));
    // Re-placing an item in its own slot is fine.
    assert_eq!(offer.set_item(0, item(10)), Ok(()));
    assert_eq!(offer.clear_slot(0), Ok(()));
    assert_eq!(offer.clear_slot(6), Err(TradeError::InvalidSlot));
    assert_eq!(offer.item_count(), 1);
    offer.clear_slot(3).unwrap();
    assert!(offer.is_empty());
    offer.set_gold(500);
    assert!(!offer.is_empty());
    assert_eq!(offer.gold, 500);
}

// --- Trade log ---

fn completed(initiator: u64, target: u64) -> CompletedTrade {
    CompletedTrade {
        initiator,
        target,
        initiator_offer: TradeOffer::default(),
        target_offer: TradeOffer::default(),
    }
}

#[test]
fn trade_log_records_and_queries() {
    let mut log = TradeLog::new();
    assert!(log.is_empty());
    assert_eq!(log.record(&completed(ALICE, BOB), 100), 1);
    assert_eq!(log.record(&completed(BOB, CAROL), 200), 2);
    assert_eq!(log.record(&completed(CAROL, ALICE), 300), 3);
    assert_eq!(log.len(), 3);
    let bob: Vec<u64> = log.trades_for_player(BOB).iter().map(|e| e.id).collect();
    assert_eq!(bob, vec![1, 2]);
    let mid: Vec<u64> = log.trades_in_range(150, 300).iter().map(|e| e.id).collect();
    assert_eq!(mid, vec![2, 3]);
    assert_eq!(log.get(2).unwrap().initiator, BOB);
    assert!(log.get(9).is_none());
}

#[test]
fn trade_log_drain_before() {
    let mut log = TradeLog::new();
    log.record(&completed(ALICE, BOB), 100);
    log.record(&completed(BOB, CAROL), 200);
    log.record(&completed(CAROL, ALICE), 300);
    let old = log.drain_before(250);
    assert_eq!(old.iter().map(|e| e.id).collect::<Vec<_>>(), vec![1, 2]);
    assert_eq!(log.len(), 1);
    assert_eq!(log.get(3).unwrap().completed_at, 300);
    // Ids keep counting after a drain.
    assert_eq!(log.record(&completed(ALICE, CAROL), 400), 4);
}

#[test]
fn default_log_starts_at_zero() {
    let mut log = TradeLog::default();
    assert_eq!(log.record(&completed(ALICE, BOB), 1), 0);
}

// --- Trade manager ---

#[test]
fn initiate_errors() {
    let mut mgr = TradeManager::new();
    assert_eq!(mgr.initiate_trade(ALICE, ALICE, true, 0), Err(TradeError::CannotTradeWithSelf));
    assert_eq!(mgr.initiate_trade(ALICE, BOB, false, 0), Err(TradeError::OutOfRange));
    assert!(mgr.is_empty());
    let id = mgr.initiate_trade(ALICE, BOB, true, 0).unwrap();
    assert_eq!(id, 1);
    assert_eq!(mgr.initiate_trade(CAROL, BOB, true, 0), Err(TradeError::AlreadyTrading));
    assert_eq!(mgr.initiate_trade(ALICE, CAROL, true, 0), Err(TradeError::AlreadyTrading));
    assert_eq!(mgr.len(), 1);
    assert!(mgr.is_trading(ALICE) && mgr.is_trading(BOB) && !mgr.is_trading(CAROL));
    assert_eq!(mgr.get_session_id(BOB), Some(1));
    let s = mgr.get_session(ALICE).unwrap();
    assert_eq!(s.state, TradeState::Pending);
    assert!(s.initiator_offer.is_empty());
}

#[test]
fn only_target_accepts_pending_request() {
    let mut mgr = TradeManager::new();
    mgr.initiate_trade(ALICE, BOB, true, 0).unwrap();
    assert_eq!(mgr.accept_trade(ALICE), Err(TradeError::NoPendingRequest));
    assert_eq!(mgr.accept_trade(CAROL), Err(TradeError::NoPendingRequest));
    assert_eq!(mgr.accept_trade(BOB), Ok(1));
    assert_eq!(mgr.accept_trade(BOB), Err(TradeError::NoPendingRequest));
    assert_eq!(mgr.get_session(BOB).unwrap().state, TradeState::Open);
}

#[test]
fn decline_removes_request() {
    let mut mgr = TradeManager::new();
    mgr.initiate_trade(ALICE, BOB, true, 0).unwrap();
    assert_eq!(mgr.decline_trade(ALICE), Err(TradeError::NoPendingRequest));
    assert_eq!(mgr.decline_trade(BOB), Ok(()));
    assert!(mgr.is_empty());
    assert!(!mgr.is_trading(ALICE));
}

#[test]
fn cancel_reports_other_player() {
    let mut mgr = TradeManager::new();
    open_trade(&mut mgr);
    assert_eq!(mgr.cancel_trade(CAROL), Err(TradeError::NoActiveSession));
    assert_eq!(mgr.cancel_trade(BOB), Ok(ALICE));
    assert!(mgr.is_empty());
    assert!(mgr.get_session(ALICE).is_none());
}

#[test]
fn offers_need_open_trade() {
    let mut mgr = TradeManager::new();
    assert_eq!(mgr.set_gold(ALICE, 5), Err(TradeError::NoActiveSession));
    mgr.initiate_trade(ALICE, BOB, true, 0).unwrap();
    assert_eq!(mgr.set_item(ALICE, 0, item(1)), Err(TradeError::TradeNotOpen));
    assert_eq!(mgr.clear_item(ALICE, 0), Err(TradeError::TradeNotOpen));
    assert_eq!(mgr.confirm_trade(ALICE), Err(TradeError::TradeNotOpen));
}

#[test]
fn full_trade_flow_completes() {
    let mut mgr = TradeManager::new();
    open_trade(&mut mgr);
    mgr.set_item(ALICE, 0, item(77)).unwrap();
    mgr.set_gold(BOB, 1_000).unwrap();
    assert_eq!(mgr.confirm_trade(ALICE), Ok(None));
    assert!(mgr.get_session(ALICE).unwrap().has_accepted(ALICE));
    let done = mgr.confirm_trade(BOB).unwrap().unwrap();
    assert_eq!(done.initiator, ALICE);
    assert_eq!(done.target, BOB);
    assert_eq!(done.initiator_offer.slots[0], Some(item(77)));
    assert_eq!(done.target_offer.gold, 1_000);
    assert!(mgr.is_empty());
    assert!(!mgr.is_trading(ALICE) && !mgr.is_trading(BOB));
}

#[test]
fn changing_offer_resets_accepts() {
    let mut mgr = TradeManager::new();
    open_trade(&mut mgr);
    mgr.confirm_trade(ALICE).unwrap();
    mgr.set_gold(BOB, 10).unwrap();
    let s = mgr.get_session(ALICE).unwrap();
    assert!(!s.initiator_accepted && !s.target_accepted);
    // Even a refused item resets them.
    mgr.confirm_trade(ALICE).unwrap();
    assert_eq!(mgr.set_item(BOB, 9, item(3)), Err(TradeError::InvalidSlot));
    assert!(!mgr.get_session(BOB).unwrap().initiator_accepted);
}

#[test]
fn unconfirm_requires_prior_confirm() {
    let mut mgr = TradeManager::new();
    open_trade(&mut mgr);
    assert_eq!(mgr.unconfirm_trade(BOB), Err(TradeError::NotConfirmed));
    mgr.confirm_trade(BOB).unwrap();
    assert_eq!(mgr.unconfirm_trade(BOB), Ok(()));
    assert!(!mgr.get_session(BOB).unwrap().target_accepted);
}

#[test]
fn clear_item_in_open_trade() {
    let mut mgr = TradeManager::new();
    open_trade(&mut mgr);
    mgr.set_item(BOB, 2, item(5)).unwrap();
    assert_eq!(mgr.clear_item(BOB, 2), Ok(()));
    assert!(mgr.get_session(BOB).unwrap().target_offer.is_empty());
    assert_eq!(mgr.clear_item(BOB, 6), Err(TradeError::InvalidSlot));
}

#[test]
fn check_range_results() {
    let mut mgr = TradeManager::new();
    assert_eq!(mgr.check_range(ALICE, true), Err(TradeError::NoActiveSession));
    mgr.initiate_trade(ALICE, BOB, true, 0).unwrap();
    assert_eq!(mgr.check_range(ALICE, true), Ok(()));
    assert_eq!(mgr.check_range(BOB, false), Err(TradeError::OutOfRange));
}

#[test]
fn cleanup_expired_removes_only_old_pending() {
    let mut mgr = TradeManager::new();
    mgr.initiate_trade(ALICE, BOB, true, 0).unwrap();
    mgr.initiate_trade(CAROL, 4, true, 50).unwrap();
    mgr.initiate_trade(5, 6, true, 0).unwrap();
    mgr.accept_trade(6).unwrap();
    mgr.cleanup_expired(100, 60);
    assert!(!mgr.is_trading(ALICE) && !mgr.is_trading(BOB));
    assert!(mgr.is_trading(CAROL) && mgr.is_trading(4));
    assert!(mgr.is_trading(5) && mgr.is_trading(6));
    assert_eq!(mgr.len(), 2);
}

#[test]
fn session_pairs_and_cancel_sessions() {
    let mut mgr = TradeManager::new();
    mgr.initiate_trade(ALICE, BOB, true, 0).unwrap();
    mgr.initiate_trade(CAROL, 4, true, 0).unwrap();
    let mut pairs = mgr.session_pairs();
    pairs.sort();
    assert_eq!(pairs, vec![(1, ALICE, BOB), (2, CAROL, 4)]);
    let cancelled = mgr.cancel_sessions(&[2, 2, 9]);
    assert_eq!(cancelled, vec![(CAROL, 4)]);
    assert_eq!(mgr.len(), 1);
    assert!(mgr.is_trading(ALICE));
}

#[test]
fn default_manager_numbers_from_zero() {
    let mut mgr = TradeManager::default();
    assert_eq!(mgr.initiate_trade(ALICE, BOB, true, 0), Ok(0));
    assert_eq!(mgr.initiate_trade(CAROL, 4, true, 0), Ok(1));
}
