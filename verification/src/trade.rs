//! Player-to-player trading system.
//!
//! Handles trade initiation, validation, and session management.
//! Ref: AzerothCore `TradeHandler.cpp`.
use crate::item_data::BoundState;
use std::collections::HashMap;
use vstd::prelude::*;
use vstd::std_specs::iter::IteratorSpec;

verus! {

broadcast use vstd::std_specs::hash::group_hash_axioms;

/// Maximum number of item slots per player in a trade window.
pub const TRADE_SLOT_COUNT: usize = 6;

/// Duration (seconds) after group loot pickup during which a BoP item
/// can be traded to eligible group members who were present for the kill.
pub const BOP_TRADE_WINDOW_SECS: u64 = 7200;

/// Tracks the group-loot trade window for a BoP item.
///
/// When a BoP item is looted via group loot, the winner can trade it
/// to other eligible group members within 2 hours.
#[derive(Debug, Clone, PartialEq, Eq)]
pub struct BopTradeWindow {
    /// Timestamp when the item was looted.
    pub looted_at: u64,
    /// Entity IDs of group members eligible to receive this item.
    pub eligible_players: Vec<u64>,
}

/// `a - b`, or 0 when `b` is larger.
pub open spec fn sat_sub(a: int, b: int) -> int {
    if a >= b {
        a - b
    } else {
        0
    }
}

/// Two hours or more have passed since looting.
pub open spec fn window_expired(w: BopTradeWindow, now: u64) -> bool {
    sat_sub(now as int, w.looted_at as int) >= BOP_TRADE_WINDOW_SECS
}

/// The window is open and the player was present for the kill.
pub open spec fn window_admits(w: BopTradeWindow, player: u64, now: u64) -> bool {
    !window_expired(w, now) && w.eligible_players@.contains(player)
}

fn contains_player(players: &[u64], player: u64) -> (b: bool)
    ensures
        b == players@.contains(player),
{
    let mut i: usize = 0;
    while i < players.len()
        invariant
            i <= players@.len(),
            forall|k: int| 0 <= k < i ==> players@[k] != player,
        decreases players.len() - i,
    {
        if players[i] == player {
            return true;
        }
        i = i + 1;
    }
    false
}

impl BopTradeWindow {
    /// Whether the trade window has expired.
    pub fn is_expired(&self, now: u64) -> (b: bool)
        ensures
            b == window_expired(*self, now),
    {
        now.saturating_sub(self.looted_at) >= BOP_TRADE_WINDOW_SECS
    }

    /// Whether a player is eligible to receive this item.
    pub fn is_eligible(&self, player: u64, now: u64) -> (b: bool)
        ensures
            b == window_admits(*self, player, now),
    {
        !self.is_expired(now) && contains_player(self.eligible_players.as_slice(), player)
    }

    /// Seconds remaining in the trade window (0 if expired).
    pub fn remaining(&self, now: u64) -> (r: u64)
        requires
            self.looted_at + BOP_TRADE_WINDOW_SECS <= u64::MAX,
        ensures
            r == sat_sub(self.looted_at + BOP_TRADE_WINDOW_SECS, now as int),
    {
        (self.looted_at + BOP_TRADE_WINDOW_SECS).saturating_sub(now)
    }
}

/// Why a trade operation failed.
#[derive(Debug, Clone, Copy, PartialEq, Eq, Structural)]
pub enum TradeError {
    /// Target player is too far away.
    OutOfRange,
    /// Cannot trade with yourself.
    CannotTradeWithSelf,
    /// One of the players is already in a trade.
    AlreadyTrading,
    /// No pending trade request from this player.
    NoPendingRequest,
    /// No active trade session found.
    NoActiveSession,
    /// Target player is not online or doesn't exist.
    InvalidTarget,
    /// Player is dead and cannot trade.
    PlayerDead,
    /// Player is in combat and cannot trade.
    PlayerInCombat,
    /// Trade is not in Open state (still pending or already completed).
    TradeNotOpen,
    /// Slot index is out of range (must be 0–5).
    InvalidSlot,
    /// Item is already in another slot of the same offer.
    ItemAlreadyOffered,
    /// Player has not confirmed / already unconfirmed.
    NotConfirmed,
    /// Item is soulbound and cannot be traded.
    ItemSoulbound,
}

/// Check whether an item can be placed in a trade offer.
///
/// - Unbound items: always tradeable.
/// - Bound items: only if a `BopTradeWindow` is active and the trade
///   target is in the eligible list.
pub fn validate_trade_binding(
    bound_state: &BoundState,
    bop_window: Option<&BopTradeWindow>,
    trade_target: u64,
    now: u64,
) -> (r: Result<(), TradeError>)
    ensures
        r is Ok <==> (*bound_state is Unbound || (bop_window matches Some(w) && window_admits(
            *w,
            trade_target,
            now,
        ))),
        r matches Err(e) ==> e == TradeError::ItemSoulbound,
{
    if bound_state.is_tradeable() {
        return Ok(());
    }
    // Item is bound — check for group loot trade window
    let window = match bop_window {
        Some(w) => w,
        None => {
            return Err(TradeError::ItemSoulbound);
        },
    };
    if window.is_eligible(trade_target, now) {
        Ok(())
    } else {
        Err(TradeError::ItemSoulbound)
    }
}

/// State of a trade between two players.
#[derive(Debug, Clone, Copy, PartialEq, Eq, Structural)]
pub enum TradeState {
    /// Initiator has sent a request, waiting for target to accept.
    Pending,
    /// Both players have the trade window open.
    Open,
}

/// An item placed in a trade slot.
#[derive(Debug, Clone, Copy, PartialEq, Eq, Structural)]
pub struct TradeItem {
    /// Unique inventory item GUID.
    pub item_guid: u64,
    /// Stack count being offered.
    pub count: u16,
}

/// One player's offer in a trade: up to 6 items + gold.
#[derive(Debug, Clone, Copy, PartialEq, Eq)]
pub struct TradeOffer {
    /// Item slots (6 total). `None` = empty slot.
    pub slots: [Option<TradeItem>; TRADE_SLOT_COUNT],
    /// Gold offered (in copper).
    pub gold: u32,
}

impl Default for TradeOffer {
    fn default() -> (r: Self)
        ensures
            forall|i: int| 0 <= i < TRADE_SLOT_COUNT ==> r.slots@[i] is None,
            r.gold == 0,
    {
        TradeOffer { slots: [None, None, None, None, None, None], gold: 0 }
    }
}

/// Another slot than `slot` already holds the item with this guid.
pub open spec fn offered_elsewhere(slots: Seq<Option<TradeItem>>, slot: int, guid: u64) -> bool {
    exists|i: int|
        0 <= i < slots.len() && i != slot && (#[trigger] slots[i] matches Some(it) && it.item_guid
            == guid)
}

/// Slots holding an item.
pub open spec fn is_filled() -> spec_fn(Option<TradeItem>) -> bool {
    |s: Option<TradeItem>| s is Some
}

impl TradeOffer {
    /// Set an item in a slot. Returns error if slot index is invalid
    /// or the item is already in another slot.
    pub fn set_item(&mut self, slot: usize, item: TradeItem) -> (r: Result<(), TradeError>)
        ensures
            slot >= TRADE_SLOT_COUNT ==> r == Err::<(), TradeError>(TradeError::InvalidSlot),
            slot < TRADE_SLOT_COUNT && offered_elsewhere(old(self).slots@, slot as int, item.item_guid)
                ==> r == Err::<(), TradeError>(TradeError::ItemAlreadyOffered),
            slot < TRADE_SLOT_COUNT && !offered_elsewhere(old(self).slots@, slot as int, item.item_guid)
                ==> r is Ok,
            r is Ok ==> final(self).slots@ == old(self).slots@.update(slot as int, Some(item))
                && final(self).gold == old(self).gold,
            r is Err ==> *final(self) == *old(self),
    {
        if slot >= TRADE_SLOT_COUNT {
            return Err(TradeError::InvalidSlot);
        }
        let mut i: usize = 0;
        while i < TRADE_SLOT_COUNT
            invariant
                i <= TRADE_SLOT_COUNT,
                slot < TRADE_SLOT_COUNT,
                self.slots@.len() == TRADE_SLOT_COUNT,
                forall|k: int|
                    0 <= k < i && k != slot ==> !(#[trigger] self.slots@[k] matches Some(it)
                        && it.item_guid == item.item_guid),
            decreases TRADE_SLOT_COUNT - i,
        {
            if i != slot {
                if let Some(s) = self.slots[i] {
                    if s.item_guid == item.item_guid {
                        return Err(TradeError::ItemAlreadyOffered);
                    }
                }
            }
            i = i + 1;
        }
        self.slots[slot] = Some(item);
        Ok(())
    }

    /// Clear a slot.
    pub fn clear_slot(&mut self, slot: usize) -> (r: Result<(), TradeError>)
        ensures
            slot >= TRADE_SLOT_COUNT ==> r == Err::<(), TradeError>(TradeError::InvalidSlot)
                && *final(self) == *old(self),
            slot < TRADE_SLOT_COUNT ==> r is Ok && final(self).slots@ == old(self).slots@.update(
                slot as int,
                None,
            ) && final(self).gold == old(self).gold,
    {
        if slot >= TRADE_SLOT_COUNT {
            return Err(TradeError::InvalidSlot);
        }
        self.slots[slot] = None;
        Ok(())
    }

    /// Set the gold amount offered.
    pub fn set_gold(&mut self, copper: u32)
        ensures
            final(self).gold == copper,
            final(self).slots@ == old(self).slots@,
    {
        self.gold = copper;
    }

    /// Number of items offered (non-empty slots).
    pub fn item_count(&self) -> (n: usize)
        ensures
            n == self.slots@.filter(is_filled()).len(),
    {
        let mut n: usize = 0;
        let mut i: usize = 0;
        while i < TRADE_SLOT_COUNT
            invariant
                i <= TRADE_SLOT_COUNT,
                self.slots@.len() == TRADE_SLOT_COUNT,
                n == self.slots@.take(i as int).filter(is_filled()).len(),
                n <= i,
            decreases TRADE_SLOT_COUNT - i,
        {
            proof {
                reveal(Seq::filter);
                assert(self.slots@.take(i + 1).drop_last() =~= self.slots@.take(i as int));
                assert(self.slots@.take(i + 1).last() == self.slots@[i as int]);
            }
            if self.slots[i].is_some() {
                n = n + 1;
            }
            i = i + 1;
        }
        proof {
            assert(self.slots@.take(i as int) =~= self.slots@);
        }
        n
    }

    /// Whether the offer is empty (no items, no gold).
    pub fn is_empty(&self) -> (b: bool)
        ensures
            b == (self.gold == 0 && forall|i: int| 0 <= i < TRADE_SLOT_COUNT ==> self.slots@[i] is None),
    {
        if self.gold != 0 {
            return false;
        }
        let mut i: usize = 0;
        while i < TRADE_SLOT_COUNT
            invariant
                i <= TRADE_SLOT_COUNT,
                self.slots@.len() == TRADE_SLOT_COUNT,
                forall|k: int| 0 <= k < i ==> self.slots@[k] is None,
            decreases TRADE_SLOT_COUNT - i,
        {
            if self.slots[i].is_some() {
                return false;
            }
            i = i + 1;
        }
        true
    }
}

/// The result of a completed trade — both offers ready for the server to execute.
#[derive(Debug, Clone, Copy, PartialEq, Eq)]
pub struct CompletedTrade {
    pub initiator: u64,
    pub target: u64,
    pub initiator_offer: TradeOffer,
    pub target_offer: TradeOffer,
}

// --- Trade logging (dispute resolution) ---

/// A permanent record of a completed trade.
#[derive(Debug, Clone, Copy, PartialEq, Eq)]
pub struct TradeLogEntry {
    /// Sequential log ID.
    pub id: u64,
    /// Player who initiated the trade.
    pub initiator: u64,
    /// Player who accepted the trade request.
    pub target: u64,
    /// What the initiator gave.
    pub initiator_offer: TradeOffer,
    /// What the target gave.
    pub target_offer: TradeOffer,
    /// Server timestamp when the trade completed.
    pub completed_at: u64,
}

/// Append-only trade log for server-side dispute resolution.
///
/// Records every completed trade with full item/gold details.
/// The server persists this to disk; this struct is the in-memory buffer.
#[derive(Debug, Clone, PartialEq)]
pub struct TradeLog {
    entries: Vec<TradeLogEntry>,
    next_id: u64,
}

/// Entries where the player took part.
pub open spec fn involving(player: u64) -> spec_fn(TradeLogEntry) -> bool {
    |e: TradeLogEntry| e.initiator == player || e.target == player
}

/// Entries completed within `[from, to]`.
pub open spec fn completed_within(from: u64, to: u64) -> spec_fn(TradeLogEntry) -> bool {
    |e: TradeLogEntry| from <= e.completed_at && e.completed_at <= to
}

/// Entries completed before `before`.
pub open spec fn older_than(before: u64) -> spec_fn(TradeLogEntry) -> bool {
    |e: TradeLogEntry| e.completed_at < before
}

/// Entries completed at or after `before`.
pub open spec fn not_older_than(before: u64) -> spec_fn(TradeLogEntry) -> bool {
    |e: TradeLogEntry| e.completed_at >= before
}

/// The log entry for a completed trade.
pub open spec fn entry_for(id: u64, trade: CompletedTrade, now: u64) -> TradeLogEntry {
    TradeLogEntry {
        id,
        initiator: trade.initiator,
        target: trade.target,
        initiator_offer: trade.initiator_offer,
        target_offer: trade.target_offer,
        completed_at: now,
    }
}

impl Default for TradeLog {
    fn default() -> (r: Self)
        ensures
            r.log_entries().len() == 0,
            r.next_log_id() == 0,
    {
        TradeLog { entries: Vec::new(), next_id: 0 }
    }
}

impl TradeLog {
    /// The recorded entries, oldest first.
    pub closed spec fn log_entries(&self) -> Seq<TradeLogEntry> {
        self.entries@
    }

    /// The id the next recorded trade gets.
    pub closed spec fn next_log_id(&self) -> u64 {
        self.next_id
    }

    pub fn new() -> (r: Self)
        ensures
            r.log_entries().len() == 0,
            r.next_log_id() == 1,
    {
        TradeLog { entries: Vec::new(), next_id: 1 }
    }

    /// Record a completed trade. Returns the log entry ID.
    pub fn record(&mut self, trade: &CompletedTrade, now: u64) -> (id: u64)
        requires
            old(self).next_log_id() < u64::MAX,
        ensures
            id == old(self).next_log_id(),
            final(self).next_log_id() == old(self).next_log_id() + 1,
            final(self).log_entries() == old(self).log_entries().push(entry_for(id, *trade, now)),
    {
        let id = self.next_id;
        self.next_id = self.next_id + 1;
        self.entries.push(
            TradeLogEntry {
                id,
                initiator: trade.initiator,
                target: trade.target,
                initiator_offer: trade.initiator_offer,
                target_offer: trade.target_offer,
                completed_at: now,
            },
        );
        id
    }

    /// Find all trades involving a specific player, oldest first.
    pub fn trades_for_player(&self, player: u64) -> (r: Vec<&TradeLogEntry>)
        ensures
            r@.unref() == self.log_entries().filter(involving(player)),
    {
        let mut r: Vec<&TradeLogEntry> = Vec::new();
        let mut i: usize = 0;
        while i < self.entries.len()
            invariant
                i <= self.entries@.len(),
                r@.unref() == self.entries@.take(i as int).filter(involving(player)),
            decreases self.entries.len() - i,
        {
            proof {
                reveal(Seq::filter);
                assert(self.entries@.take(i + 1).drop_last() =~= self.entries@.take(i as int));
                assert(self.entries@.take(i + 1).last() == self.entries@[i as int]);
            }
            let e = &self.entries[i];
            if e.initiator == player || e.target == player {
                r.push(e);
                proof {
                    assert(r@.unref() =~= self.entries@.take(i as int).filter(involving(player)).push(*e));
                }
            }
            i = i + 1;
        }
        proof {
            assert(self.entries@.take(i as int) =~= self.entries@);
        }
        r
    }

    /// Find all trades within a time range (inclusive), oldest first.
    pub fn trades_in_range(&self, from: u64, to: u64) -> (r: Vec<&TradeLogEntry>)
        ensures
            r@.unref() == self.log_entries().filter(completed_within(from, to)),
    {
        let mut r: Vec<&TradeLogEntry> = Vec::new();
        let mut i: usize = 0;
        while i < self.entries.len()
            invariant
                i <= self.entries@.len(),
                r@.unref() == self.entries@.take(i as int).filter(completed_within(from, to)),
            decreases self.entries.len() - i,
        {
            proof {
                reveal(Seq::filter);
                assert(self.entries@.take(i + 1).drop_last() =~= self.entries@.take(i as int));
                assert(self.entries@.take(i + 1).last() == self.entries@[i as int]);
            }
            let e = &self.entries[i];
            if e.completed_at >= from && e.completed_at <= to {
                r.push(e);
                proof {
                    assert(r@.unref() =~= self.entries@.take(i as int).filter(
                        completed_within(from, to),
                    ).push(*e));
                }
            }
            i = i + 1;
        }
        proof {
            assert(self.entries@.take(i as int) =~= self.entries@);
        }
        r
    }

    /// Look up a specific trade by log ID (the first entry with it).
    pub fn get(&self, id: u64) -> (r: Option<&TradeLogEntry>)
        ensures
            r is None <==> forall|k: int|
                0 <= k < self.log_entries().len() ==> (#[trigger] self.log_entries()[k]).id != id,
            r matches Some(e) ==> exists|k: int|
                0 <= k < self.log_entries().len() && *e == self.log_entries()[k] && e.id == id
                    && forall|m: int| 0 <= m < k ==> (#[trigger] self.log_entries()[m]).id != id,
    {
        let mut i: usize = 0;
        while i < self.entries.len()
            invariant
                i <= self.entries@.len(),
                forall|k: int| 0 <= k < i ==> (#[trigger] self.entries@[k]).id != id,
            decreases self.entries.len() - i,
        {
            if self.entries[i].id == id {
                proof {
                    assert(self.log_entries()[i as int].id == id);
                    assert(forall|m: int| 0 <= m < i ==> (#[trigger] self.log_entries()[m]).id != id);
                }
                return Some(&self.entries[i]);
            }
            i = i + 1;
        }
        None
    }

    /// Total number of recorded trades.
    pub fn len(&self) -> (n: usize)
        ensures
            n == self.log_entries().len(),
    {
        self.entries.len()
    }

    /// Whether the log is empty.
    pub fn is_empty(&self) -> (b: bool)
        ensures
            b == (self.log_entries().len() == 0),
    {
        self.entries.len() == 0
    }

    /// Drain entries older than `before` timestamp for archival.
    /// Returns the removed entries (oldest first) so the server can persist them.
    pub fn drain_before(&mut self, before: u64) -> (old_entries: Vec<TradeLogEntry>)
        ensures
            old_entries@ == old(self).log_entries().filter(older_than(before)),
            final(self).log_entries() == old(self).log_entries().filter(not_older_than(before)),
            final(self).next_log_id() == old(self).next_log_id(),
    {
        let mut old_entries: Vec<TradeLogEntry> = Vec::new();
        let mut recent: Vec<TradeLogEntry> = Vec::new();
        let mut i: usize = 0;
        while i < self.entries.len()
            invariant
                i <= self.entries@.len(),
                self.entries@ == old(self).entries@,
                self.next_id == old(self).next_id,
                old_entries@ == self.entries@.take(i as int).filter(older_than(before)),
                recent@ == self.entries@.take(i as int).filter(not_older_than(before)),
            decreases self.entries.len() - i,
        {
            proof {
                reveal(Seq::filter);
                assert(self.entries@.take(i + 1).drop_last() =~= self.entries@.take(i as int));
                assert(self.entries@.take(i + 1).last() == self.entries@[i as int]);
            }
            let e = self.entries[i];
            if e.completed_at < before {
                old_entries.push(e);
            } else {
                recent.push(e);
            }
            i = i + 1;
        }
        proof {
            assert(self.entries@.take(i as int) =~= self.entries@);
        }
        self.entries = recent;
        old_entries
    }
}

/// A pending or active trade session between two players.
#[derive(Debug, Clone, Copy, PartialEq, Eq)]
pub struct TradeSession {
    /// Player who initiated the trade request.
    pub initiator: u64,
    /// Player who received the trade request.
    pub target: u64,
    /// Current state of the trade.
    pub state: TradeState,
    /// Server timestamp when the session was created.
    pub created_at: u64,
    /// Initiator's offered items and gold.
    pub initiator_offer: TradeOffer,
    /// Target's offered items and gold.
    pub target_offer: TradeOffer,
    /// Whether the initiator has clicked "Accept".
    pub initiator_accepted: bool,
    /// Whether the target has clicked "Accept".
    pub target_accepted: bool,
}

/// The player takes part in the session.
pub open spec fn session_involves(s: TradeSession, player: u64) -> bool {
    s.initiator == player || s.target == player
}

impl TradeSession {
    /// Whether a player is part of this session.
    pub fn involves(&self, player: u64) -> (b: bool)
        ensures
            b == session_involves(*self, player),
    {
        self.initiator == player || self.target == player
    }

    /// Get the other player in the session.
    pub fn other_player(&self, player: u64) -> (r: Option<u64>)
        ensures
            r == (if player == self.initiator {
                Some(self.target)
            } else if player == self.target {
                Some(self.initiator)
            } else {
                None
            }),
    {
        if player == self.initiator {
            Some(self.target)
        } else if player == self.target {
            Some(self.initiator)
        } else {
            None
        }
    }

    /// Get a player's offer (read-only).
    pub fn offer(&self, player: u64) -> (r: Option<&TradeOffer>)
        ensures
            r == (if player == self.initiator {
                Some(&self.initiator_offer)
            } else if player == self.target {
                Some(&self.target_offer)
            } else {
                None
            }),
    {
        if player == self.initiator {
            Some(&self.initiator_offer)
        } else if player == self.target {
            Some(&self.target_offer)
        } else {
            None
        }
    }

    /// Get a mutable reference to a player's offer.
    pub fn offer_mut(&mut self, player: u64) -> (r: Option<&mut TradeOffer>)
        ensures
            r is Some <==> session_involves(*old(self), player),
            r is None ==> *final(self) == *old(self),
            r matches Some(o) ==> (if player == old(self).initiator {
                &&& *o == old(self).initiator_offer
                &&& *final(self) == (TradeSession { initiator_offer: *final(o), ..*old(self) })
            } else {
                &&& *o == old(self).target_offer
                &&& *final(self) == (TradeSession { target_offer: *final(o), ..*old(self) })
            }),
    {
        if player == self.initiator {
            Some(&mut self.initiator_offer)
        } else if player == self.target {
            Some(&mut self.target_offer)
        } else {
            None
        }
    }

    /// Whether a player has accepted the current offer.
    pub fn has_accepted(&self, player: u64) -> (b: bool)
        ensures
            b == (if player == self.initiator {
                self.initiator_accepted
            } else if player == self.target {
                self.target_accepted
            } else {
                false
            }),
    {
        if player == self.initiator {
            self.initiator_accepted
        } else if player == self.target {
            self.target_accepted
        } else {
            false
        }
    }

    /// Whether both players have accepted.
    pub fn both_accepted(&self) -> (b: bool)
        ensures
            b == (self.initiator_accepted && self.target_accepted),
    {
        self.initiator_accepted && self.target_accepted
    }

    /// Reset both accept flags (called when either offer changes).
    pub fn reset_accepts(&mut self)
        ensures
            *final(self) == (TradeSession {
                initiator_accepted: false,
                target_accepted: false,
                ..*old(self)
            }),
    {
        self.initiator_accepted = false;
        self.target_accepted = false;
    }
}

/// The session with both accept flags cleared.
pub open spec fn accepts_reset(s: TradeSession) -> TradeSession {
    TradeSession { initiator_accepted: false, target_accepted: false, ..s }
}

/// The offer of a participant (the target's for anyone but the initiator).
pub open spec fn offer_of(s: TradeSession, player: u64) -> TradeOffer {
    if player == s.initiator {
        s.initiator_offer
    } else {
        s.target_offer
    }
}

/// The session with a participant's offer replaced.
pub open spec fn with_offer(s: TradeSession, player: u64, o: TradeOffer) -> TradeSession {
    if player == s.initiator {
        TradeSession { initiator_offer: o, ..s }
    } else {
        TradeSession { target_offer: o, ..s }
    }
}

/// The session with a participant's accept flag set to `v`.
pub open spec fn with_accept(s: TradeSession, player: u64, v: bool) -> TradeSession {
    if player == s.initiator {
        TradeSession { initiator_accepted: v, ..s }
    } else {
        TradeSession { target_accepted: v, ..s }
    }
}

/// A just-requested session: pending, empty offers, nobody accepted.
pub open spec fn fresh_session(s: TradeSession, initiator: u64, target: u64, now: u64) -> bool {
    &&& s.initiator == initiator
    &&& s.target == target
    &&& s.state == TradeState::Pending
    &&& s.created_at == now
    &&& !s.initiator_accepted
    &&& !s.target_accepted
    &&& forall|i: int| 0 <= i < TRADE_SLOT_COUNT ==> s.initiator_offer.slots@[i] is None
    &&& forall|i: int| 0 <= i < TRADE_SLOT_COUNT ==> s.target_offer.slots@[i] is None
    &&& s.initiator_offer.gold == 0
    &&& s.target_offer.gold == 0
}

/// A pending request that has waited longer than `timeout_secs`.
pub open spec fn request_expired(s: TradeSession, now: u64, timeout_secs: u64) -> bool {
    s.state == TradeState::Pending && sat_sub(now as int, s.created_at as int) > timeout_secs
}

/// The `(initiator, target)` pairs of the sessions cancelled by removing
/// `ids` in order from `m` (each session once, where it still existed).
pub open spec fn cancelled_pairs(m: Map<u32, TradeSession>, ids: Seq<u32>) -> Seq<(u64, u64)>
    decreases ids.len(),
{
    if ids.len() == 0 {
        Seq::empty()
    } else {
        let prev = cancelled_pairs(m, ids.drop_last());
        let id = ids.last();
        if m.contains_key(id) && !ids.drop_last().contains(id) {
            prev.push((m[id].initiator, m[id].target))
        } else {
            prev
        }
    }
}

/// Manages all pending and active trade sessions.
#[derive(Debug, Clone, PartialEq)]
pub struct TradeManager {
    /// Active sessions indexed by a session ID.
    sessions: HashMap<u32, TradeSession>,
    /// Maps player entity → session ID for fast lookup.
    player_index: HashMap<u64, u32>,
    /// Next session ID.
    next_id: u32,
}

impl Default for TradeManager {
    fn default() -> (r: Self)
        ensures
            r.wf(),
            r.session_map() == Map::<u32, TradeSession>::empty(),
            r.index_map() == Map::<u64, u32>::empty(),
            r.next_session_id() == 0,
    {
        TradeManager { sessions: HashMap::new(), player_index: HashMap::new(), next_id: 0 }
    }
}

impl TradeManager {
    /// Sessions by id.
    pub closed spec fn session_map(&self) -> Map<u32, TradeSession> {
        self.sessions@
    }

    /// Session id of each player in a trade.
    pub closed spec fn index_map(&self) -> Map<u64, u32> {
        self.player_index@
    }

    /// The id the next session gets.
    pub closed spec fn next_session_id(&self) -> u32 {
        self.next_id
    }

    /// Each session has two distinct players, both indexed to it, and an id
    /// below the next one; each indexed player belongs to the session it is
    /// indexed to.
    pub open spec fn wf(&self) -> bool {
        &&& forall|id: u32| #[trigger]
            self.session_map().contains_key(id) ==> {
                let s = self.session_map()[id];
                &&& s.initiator != s.target
                &&& self.index_map().contains_key(s.initiator)
                &&& self.index_map()[s.initiator] == id
                &&& self.index_map().contains_key(s.target)
                &&& self.index_map()[s.target] == id
                &&& id < self.next_session_id()
            }
        &&& forall|p: u64| #[trigger]
            self.index_map().contains_key(p) ==> {
                &&& self.session_map().contains_key(self.index_map()[p])
                &&& session_involves(self.session_map()[self.index_map()[p]], p)
            }
    }

    /// The session a player is in.
    pub open spec fn session_of(&self, player: u64) -> TradeSession {
        self.session_map()[self.index_map()[player]]
    }

    /// The player is in a session that is open.
    pub open spec fn has_open_session(&self, player: u64) -> bool {
        self.index_map().contains_key(player) && self.session_of(player).state == TradeState::Open
    }

    /// The error the open-session operations report for a player without an open session.
    pub open spec fn open_session_error(&self, player: u64) -> TradeError {
        if !self.index_map().contains_key(player) {
            TradeError::NoActiveSession
        } else {
            TradeError::TradeNotOpen
        }
    }

    /// `after` is `self` with session `id` updated to `s` and nothing else changed.
    pub open spec fn updated(&self, after: TradeManager, id: u32, s: TradeSession) -> bool {
        &&& after.session_map() == self.session_map().insert(id, s)
        &&& after.index_map() == self.index_map()
        &&& after.next_session_id() == self.next_session_id()
    }

    /// `after` is `self` with session `id` and its two players' entries removed.
    pub open spec fn removed(&self, after: TradeManager, id: u32) -> bool {
        let s = self.session_map()[id];
        &&& after.session_map() == self.session_map().remove(id)
        &&& after.index_map() == self.index_map().remove(s.initiator).remove(s.target)
        &&& after.next_session_id() == self.next_session_id()
    }

    pub fn new() -> (r: Self)
        ensures
            r.wf(),
            r.session_map() == Map::<u32, TradeSession>::empty(),
            r.index_map() == Map::<u64, u32>::empty(),
            r.next_session_id() == 1,
    {
        TradeManager { sessions: HashMap::new(), player_index: HashMap::new(), next_id: 1 }
    }

    /// Initiate a trade request from one player to another.
    ///
    /// Creates a pending session. The target must call `accept_trade`
    /// to open the trade window. `in_range` tells whether the two players
    /// stand within trade range of each other.
    pub fn initiate_trade(&mut self, initiator: u64, target: u64, in_range: bool, now: u64) -> (r:
        Result<u32, TradeError>)
        requires
            old(self).wf(),
            initiator != target && !old(self).index_map().contains_key(initiator)
                && !old(self).index_map().contains_key(target) && in_range ==> old(self).next_session_id() < u32::MAX,
        ensures
            final(self).wf(),
            initiator == target ==> r == Err::<u32, TradeError>(TradeError::CannotTradeWithSelf),
            initiator != target && (old(self).index_map().contains_key(initiator) || old(self).index_map().contains_key(target)) ==> r == Err::<u32, TradeError>(
                TradeError::AlreadyTrading,
            ),
            initiator != target && !old(self).index_map().contains_key(initiator) && !old(self).index_map().contains_key(target) && !in_range ==> r == Err::<u32, TradeError>(
                TradeError::OutOfRange,
            ),
            r is Err ==> *final(self) == *old(self),
            r matches Ok(id) ==> {
                &&& id == old(self).next_session_id()
                &&& final(self).next_session_id() == old(self).next_session_id() + 1
                &&& final(self).session_map().dom() == old(self).session_map().dom().insert(id)
                &&& fresh_session(final(self).session_map()[id], initiator, target, now)
                &&& forall|k: u32| #[trigger]
                    old(self).session_map().contains_key(k) ==> final(self).session_map()[k]
                        == old(self).session_map()[k]
                &&& final(self).index_map() == old(self).index_map().insert(initiator, id).insert(
                    target,
                    id,
                )
            },
    {
        if initiator == target {
            return Err(TradeError::CannotTradeWithSelf);
        }
        if self.player_index.contains_key(&initiator) || self.player_index.contains_key(&target) {
            return Err(TradeError::AlreadyTrading);
        }
        if !in_range {
            return Err(TradeError::OutOfRange);
        }
        let session = TradeSession {
            initiator,
            target,
            state: TradeState::Pending,
            created_at: now,
            initiator_offer: TradeOffer::default(),
            target_offer: TradeOffer::default(),
            initiator_accepted: false,
            target_accepted: false,
        };
        let session_id = self.next_id;
        proof {
            assert(!self.sessions@.contains_key(session_id));
        }
        self.next_id = self.next_id + 1;
        self.player_index.insert(initiator, session_id);
        self.player_index.insert(target, session_id);
        self.sessions.insert(session_id, session);
        proof {
            assert forall|id: u32| #[trigger] self.session_map().contains_key(id) implies {
                let s = self.session_map()[id];
                &&& s.initiator != s.target
                &&& self.index_map().contains_key(s.initiator)
                &&& self.index_map()[s.initiator] == id
                &&& self.index_map().contains_key(s.target)
                &&& self.index_map()[s.target] == id
                &&& id < self.next_session_id()
            } by {
                if id != session_id {
                    assert(old(self).session_map().contains_key(id));
                }
            }
            assert forall|p: u64| #[trigger] self.index_map().contains_key(p) implies {
                &&& self.session_map().contains_key(self.index_map()[p])
                &&& session_involves(self.session_map()[self.index_map()[p]], p)
            } by {
                if p != initiator && p != target {
                    assert(old(self).index_map().contains_key(p));
                    let sid = old(self).index_map()[p];
                    assert(old(self).session_map().contains_key(sid));
                    assert(sid < old(self).next_session_id());
                }
            }
            assert(self.session_map().dom() =~= old(self).session_map().dom().insert(session_id));
        }
        Ok(session_id)
    }

    /// The pending request addressed to `target`, if any.
    fn pending_request(&self, target: u64) -> (r: Option<(u32, TradeSession)>)
        requires
            self.wf(),
        ensures
            r is Some <==> (self.index_map().contains_key(target) && self.session_of(target).target
                == target && self.session_of(target).state == TradeState::Pending),
            r matches Some(p) ==> p.0 == self.index_map()[target] && p.1 == self.session_of(target),
    {
        let session_id = match self.player_index.get(&target) {
            Some(id) => *id,
            None => {
                return None;
            },
        };
        let session = match self.sessions.get(&session_id) {
            Some(s) => *s,
            None => {
                return None;
            },
        };
        if session.target != target || session.state != TradeState::Pending {
            return None;
        }
        Some((session_id, session))
    }

    /// Remove a session and its two players' index entries.
    fn remove_session(&mut self, session_id: u32)
        requires
            old(self).wf(),
        ensures
            final(self).wf(),
            old(self).session_map().contains_key(session_id) ==> old(self).removed(
                *final(self),
                session_id,
            ),
            !old(self).session_map().contains_key(session_id) ==> *final(self) == *old(self),
    {
        if !self.sessions.contains_key(&session_id) {
            return;
        }
        let removed = self.sessions.remove(&session_id);
        if let Some(session) = removed {
            self.player_index.remove(&session.initiator);
            self.player_index.remove(&session.target);
            proof {
                let s = session;
                assert forall|id: u32| #[trigger] self.session_map().contains_key(id) implies {
                    let t = self.session_map()[id];
                    &&& t.initiator != t.target
                    &&& self.index_map().contains_key(t.initiator)
                    &&& self.index_map()[t.initiator] == id
                    &&& self.index_map().contains_key(t.target)
                    &&& self.index_map()[t.target] == id
                    &&& id < self.next_session_id()
                } by {
                    assert(old(self).session_map().contains_key(id));
                    let t = old(self).session_map()[id];
                    assert(t.initiator != s.initiator && t.initiator != s.target);
                    assert(t.target != s.initiator && t.target != s.target);
                }
                assert forall|p: u64| #[trigger] self.index_map().contains_key(p) implies {
                    &&& self.session_map().contains_key(self.index_map()[p])
                    &&& session_involves(self.session_map()[self.index_map()[p]], p)
                } by {
                    assert(old(self).index_map().contains_key(p));
                    let sid = old(self).index_map()[p];
                    if sid == session_id {
                        assert(session_involves(s, p));
                    }
                }
            }
        }
    }

    /// Accept a pending trade request, opening the trade window.
    pub fn accept_trade(&mut self, target: u64) -> (r: Result<u32, TradeError>)
        requires
            old(self).wf(),
        ensures
            final(self).wf(),
            r is Ok <==> (old(self).index_map().contains_key(target) && old(self).session_of(
                target,
            ).target == target && old(self).session_of(target).state == TradeState::Pending),
            r is Err ==> r == Err::<u32, TradeError>(TradeError::NoPendingRequest) && *final(self)
                == *old(self),
            r matches Ok(id) ==> id == old(self).index_map()[target] && old(self).updated(
                *final(self),
                id,
                TradeSession { state: TradeState::Open, ..old(self).session_of(target) },
            ),
    {
        let (session_id, session) = match self.pending_request(target) {
            Some(p) => p,
            None => {
                return Err(TradeError::NoPendingRequest);
            },
        };
        self.sessions.insert(session_id, TradeSession { state: TradeState::Open, ..session });
        Ok(session_id)
    }

    /// Decline a pending trade request.
    pub fn decline_trade(&mut self, target: u64) -> (r: Result<(), TradeError>)
        requires
            old(self).wf(),
        ensures
            final(self).wf(),
            r is Ok <==> (old(self).index_map().contains_key(target) && old(self).session_of(
                target,
            ).target == target && old(self).session_of(target).state == TradeState::Pending),
            r is Err ==> r == Err::<(), TradeError>(TradeError::NoPendingRequest) && *final(self)
                == *old(self),
            r is Ok ==> old(self).removed(*final(self), old(self).index_map()[target]),
    {
        let (session_id, _session) = match self.pending_request(target) {
            Some(p) => p,
            None => {
                return Err(TradeError::NoPendingRequest);
            },
        };
        self.remove_session(session_id);
        Ok(())
    }

    /// Cancel an active or pending trade (either player can cancel).
    /// Returns the other player, so they can be told.
    pub fn cancel_trade(&mut self, player: u64) -> (r: Result<u64, TradeError>)
        requires
            old(self).wf(),
        ensures
            final(self).wf(),
            r is Ok <==> old(self).index_map().contains_key(player),
            r is Err ==> r == Err::<u64, TradeError>(TradeError::NoActiveSession) && *final(self)
                == *old(self),
            r matches Ok(other) ==> {
                let s = old(self).session_of(player);
                &&& other == (if player == s.initiator {
                    s.target
                } else {
                    s.initiator
                })
                &&& old(self).removed(*final(self), old(self).index_map()[player])
            },
    {
        let session_id = match self.player_index.get(&player) {
            Some(id) => *id,
            None => {
                return Err(TradeError::NoActiveSession);
            },
        };
        let session = match self.sessions.get(&session_id) {
            Some(s) => *s,
            None => {
                return Err(TradeError::NoActiveSession);
            },
        };
        let other = match session.other_player(player) {
            Some(o) => o,
            None => {
                return Err(TradeError::NoActiveSession);
            },
        };
        self.remove_session(session_id);
        Ok(other)
    }

    /// The open session a player is in.
    fn open_session(&self, player: u64) -> (r: Result<(u32, TradeSession), TradeError>)
        requires
            self.wf(),
        ensures
            r is Ok <==> self.has_open_session(player),
            r matches Err(e) ==> e == self.open_session_error(player),
            r matches Ok(p) ==> p.0 == self.index_map()[player] && p.1 == self.session_of(player),
    {
        let session_id = match self.player_index.get(&player) {
            Some(id) => *id,
            None => {
                return Err(TradeError::NoActiveSession);
            },
        };
        let session = match self.sessions.get(&session_id) {
            Some(s) => *s,
            None => {
                return Err(TradeError::NoActiveSession);
            },
        };
        if session.state != TradeState::Open {
            return Err(TradeError::TradeNotOpen);
        }
        Ok((session_id, session))
    }

    /// Replace a session, keeping its players and state.
    fn store_session(&mut self, session_id: u32, session: TradeSession)
        requires
            old(self).wf(),
            old(self).session_map().contains_key(session_id),
            session.initiator == old(self).session_map()[session_id].initiator,
            session.target == old(self).session_map()[session_id].target,
        ensures
            final(self).wf(),
            old(self).updated(*final(self), session_id, session),
    {
        self.sessions.insert(session_id, session);
        proof {
            assert forall|p: u64| #[trigger] self.index_map().contains_key(p) implies {
                &&& self.session_map().contains_key(self.index_map()[p])
                &&& session_involves(self.session_map()[self.index_map()[p]], p)
            } by {
                assert(old(self).index_map().contains_key(p));
            }
            assert forall|id: u32| #[trigger] self.session_map().contains_key(id) implies {
                let t = self.session_map()[id];
                &&& t.initiator != t.target
                &&& self.index_map().contains_key(t.initiator)
                &&& self.index_map()[t.initiator] == id
                &&& self.index_map().contains_key(t.target)
                &&& self.index_map()[t.target] == id
                &&& id < self.next_session_id()
            } by {
                assert(old(self).session_map().contains_key(id));
            }
        }
    }

    /// Set an item in a player's trade slot. Trade must be Open.
    /// Resets both players' accept flags (offer changed), even when the
    /// item is then refused.
    pub fn set_item(&mut self, player: u64, slot: usize, item: TradeItem) -> (r: Result<(), TradeError>)
        requires
            old(self).wf(),
        ensures
            final(self).wf(),
            !old(self).has_open_session(player) ==> r == Err::<(), TradeError>(
                old(self).open_session_error(player),
            ) && *final(self) == *old(self),
            old(self).has_open_session(player) ==> {
                let s = old(self).session_of(player);
                let o = offer_of(s, player);
                let after = final(self).session_map()[old(self).index_map()[player]];
                &&& old(self).updated(*final(self), old(self).index_map()[player], after)
                &&& after == with_offer(accepts_reset(s), player, offer_of(after, player))
                &&& slot >= TRADE_SLOT_COUNT ==> r == Err::<(), TradeError>(TradeError::InvalidSlot)
                &&& slot < TRADE_SLOT_COUNT && offered_elsewhere(o.slots@, slot as int, item.item_guid)
                    ==> r == Err::<(), TradeError>(TradeError::ItemAlreadyOffered)
                &&& slot < TRADE_SLOT_COUNT && !offered_elsewhere(o.slots@, slot as int, item.item_guid)
                    ==> r is Ok
                &&& r is Ok ==> offer_of(after, player).slots@ == o.slots@.update(slot as int, Some(item))
                    && offer_of(after, player).gold == o.gold
                &&& r is Err ==> offer_of(after, player) == o
            },
    {
        let (session_id, session) = match self.open_session(player) {
            Ok(p) => p,
            Err(e) => {
                return Err(e);
            },
        };
        let mut s = session;
        s.reset_accepts();
        let result = if player == s.initiator {
            s.initiator_offer.set_item(slot, item)
        } else {
            s.target_offer.set_item(slot, item)
        };
        self.store_session(session_id, s);
        result
    }

    /// Clear an item slot in a player's trade offer.
    /// Resets both players' accept flags.
    pub fn clear_item(&mut self, player: u64, slot: usize) -> (r: Result<(), TradeError>)
        requires
            old(self).wf(),
        ensures
            final(self).wf(),
            !old(self).has_open_session(player) ==> r == Err::<(), TradeError>(
                old(self).open_session_error(player),
            ) && *final(self) == *old(self),
            old(self).has_open_session(player) ==> {
                let s = old(self).session_of(player);
                let o = offer_of(s, player);
                let after = final(self).session_map()[old(self).index_map()[player]];
                &&& old(self).updated(*final(self), old(self).index_map()[player], after)
                &&& after == with_offer(accepts_reset(s), player, offer_of(after, player))
                &&& slot >= TRADE_SLOT_COUNT ==> r == Err::<(), TradeError>(TradeError::InvalidSlot)
                    && offer_of(after, player) == o
                &&& slot < TRADE_SLOT_COUNT ==> r is Ok && offer_of(after, player).slots@
                    == o.slots@.update(slot as int, None) && offer_of(after, player).gold == o.gold
            },
    {
        let (session_id, session) = match self.open_session(player) {
            Ok(p) => p,
            Err(e) => {
                return Err(e);
            },
        };
        let mut s = session;
        s.reset_accepts();
        let result = if player == s.initiator {
            s.initiator_offer.clear_slot(slot)
        } else {
            s.target_offer.clear_slot(slot)
        };
        self.store_session(session_id, s);
        result
    }

    /// Set the gold amount in a player's trade offer.
    /// Resets both players' accept flags.
    pub fn set_gold(&mut self, player: u64, copper: u32) -> (r: Result<(), TradeError>)
        requires
            old(self).wf(),
        ensures
            final(self).wf(),
            !old(self).has_open_session(player) ==> r == Err::<(), TradeError>(
                old(self).open_session_error(player),
            ) && *final(self) == *old(self),
            old(self).has_open_session(player) ==> {
                let s = old(self).session_of(player);
                let after = final(self).session_map()[old(self).index_map()[player]];
                &&& r is Ok
                &&& old(self).updated(*final(self), old(self).index_map()[player], after)
                &&& after == with_offer(accepts_reset(s), player, offer_of(after, player))
                &&& offer_of(after, player).slots@ == offer_of(s, player).slots@
                &&& offer_of(after, player).gold == copper
            },
    {
        let (session_id, session) = match self.open_session(player) {
            Ok(p) => p,
            Err(e) => {
                return Err(e);
            },
        };
        let mut s = session;
        s.reset_accepts();
        if player == s.initiator {
            s.initiator_offer.set_gold(copper);
        } else {
            s.target_offer.set_gold(copper);
        }
        self.store_session(session_id, s);
        Ok(())
    }

    /// Confirm (accept) the trade. Both players must confirm for it to complete.
    ///
    /// Returns `Some(CompletedTrade)` if both players have now accepted,
    /// which means the server should execute the item/gold exchange.
    /// The session is removed on completion.
    pub fn confirm_trade(&mut self, player: u64) -> (r: Result<Option<CompletedTrade>, TradeError>)
        requires
            old(self).wf(),
        ensures
            final(self).wf(),
            !old(self).has_open_session(player) ==> r == Err::<Option<CompletedTrade>, TradeError>(
                old(self).open_session_error(player),
            ) && *final(self) == *old(self),
            old(self).has_open_session(player) ==> {
                let id = old(self).index_map()[player];
                let s = with_accept(old(self).session_of(player), player, true);
                &&& !(s.initiator_accepted && s.target_accepted) ==> r == Ok::<
                    Option<CompletedTrade>,
                    TradeError,
                >(None) && old(self).updated(*final(self), id, s)
                &&& (s.initiator_accepted && s.target_accepted) ==> old(self).removed(
                    *final(self),
                    id,
                ) && r == Ok::<Option<CompletedTrade>, TradeError>(
                    Some(
                        CompletedTrade {
                            initiator: s.initiator,
                            target: s.target,
                            initiator_offer: s.initiator_offer,
                            target_offer: s.target_offer,
                        },
                    ),
                )
            },
    {
        let (session_id, session) = match self.open_session(player) {
            Ok(p) => p,
            Err(e) => {
                return Err(e);
            },
        };
        let mut s = session;
        if player == s.initiator {
            s.initiator_accepted = true;
        } else {
            s.target_accepted = true;
        }
        if !s.both_accepted() {
            self.store_session(session_id, s);
            return Ok(None);
        }
        // Both accepted — complete the trade
        self.remove_session(session_id);
        Ok(
            Some(
                CompletedTrade {
                    initiator: s.initiator,
                    target: s.target,
                    initiator_offer: s.initiator_offer,
                    target_offer: s.target_offer,
                },
            ),
        )
    }

    /// Withdraw acceptance (unconfirm). Only valid if the player has accepted.
    pub fn unconfirm_trade(&mut self, player: u64) -> (r: Result<(), TradeError>)
        requires
            old(self).wf(),
        ensures
            final(self).wf(),
            !old(self).has_open_session(player) ==> r == Err::<(), TradeError>(
                old(self).open_session_error(player),
            ) && *final(self) == *old(self),
            old(self).has_open_session(player) ==> {
                let id = old(self).index_map()[player];
                let s = old(self).session_of(player);
                let accepted = if player == s.initiator {
                    s.initiator_accepted
                } else {
                    s.target_accepted
                };
                &&& !accepted ==> r == Err::<(), TradeError>(TradeError::NotConfirmed) && *final(self)
                    == *old(self)
                &&& accepted ==> r is Ok && old(self).updated(
                    *final(self),
                    id,
                    with_accept(s, player, false),
                )
            },
    {
        let (session_id, session) = match self.open_session(player) {
            Ok(p) => p,
            Err(e) => {
                return Err(e);
            },
        };
        let accepted = session.has_accepted(player);
        if !accepted {
            return Err(TradeError::NotConfirmed);
        }
        let mut s = session;
        if player == s.initiator {
            s.initiator_accepted = false;
        } else {
            s.target_accepted = false;
        }
        self.store_session(session_id, s);
        Ok(())
    }

    /// Get the active trade session for a player.
    pub fn get_session(&self, player: u64) -> (r: Option<&TradeSession>)
        requires
            self.wf(),
        ensures
            r is Some <==> self.index_map().contains_key(player),
            r matches Some(s) ==> *s == self.session_of(player),
    {
        let session_id = match self.player_index.get(&player) {
            Some(id) => *id,
            None => {
                return None;
            },
        };
        self.sessions.get(&session_id)
    }

    /// Get the session ID for a player, if any.
    pub fn get_session_id(&self, player: u64) -> (r: Option<u32>)
        ensures
            r is Some <==> self.index_map().contains_key(player),
            r matches Some(id) ==> id == self.index_map()[player],
    {
        match self.player_index.get(&player) {
            Some(id) => Some(*id),
            None => None,
        }
    }

    /// Whether a player is currently in a trade (pending or open).
    pub fn is_trading(&self, player: u64) -> (b: bool)
        ensures
            b == self.index_map().contains_key(player),
    {
        self.player_index.contains_key(&player)
    }

    /// Check if a specific trade session's players are still in range
    /// (`in_range` tells whether they stand within trade range).
    ///
    /// Returns `Err(OutOfRange)` if they've moved apart. The server
    /// should cancel the trade when this fails.
    pub fn check_range(&self, player: u64, in_range: bool) -> (r: Result<(), TradeError>)
        ensures
            !self.index_map().contains_key(player) ==> r == Err::<(), TradeError>(
                TradeError::NoActiveSession,
            ),
            self.index_map().contains_key(player) && !in_range ==> r == Err::<(), TradeError>(
                TradeError::OutOfRange,
            ),
            self.index_map().contains_key(player) && in_range ==> r is Ok,
    {
        if !self.is_trading(player) {
            return Err(TradeError::NoActiveSession);
        }
        if in_range {
            Ok(())
        } else {
            Err(TradeError::OutOfRange)
        }
    }

    /// Every session as `(id, initiator, target)`, in the map's own
    /// (unspecified) order.
    pub fn session_pairs(&self) -> (r: Vec<(u32, u64, u64)>)
        ensures
            r@.len() == self.session_map().len(),
            r@.map_values(|t: (u32, u64, u64)| t.0).to_set() == self.session_map().dom(),
            r@.map_values(|t: (u32, u64, u64)| t.0).no_duplicates(),
            forall|i: int|
                0 <= i < r@.len() ==> self.session_map().contains_key((#[trigger] r@[i]).0)
                    && r@[i].1 == self.session_map()[r@[i].0].initiator && r@[i].2
                    == self.session_map()[r@[i].0].target,
    {
        let ghost keys = vstd::std_specs::hash::spec_keys_iter(&self.sessions).remaining().unref();
        let mut r: Vec<(u32, u64, u64)> = Vec::new();
        for k in it: self.sessions.keys()
            invariant
                it.seq().unref() == keys,
                keys.to_set() == self.session_map().dom(),
                keys.no_duplicates(),
                r@.map_values(|t: (u32, u64, u64)| t.0) == keys.take(it.index()),
                forall|i: int|
                    0 <= i < r@.len() ==> self.session_map().contains_key((#[trigger] r@[i]).0)
                        && r@[i].1 == self.session_map()[r@[i].0].initiator && r@[i].2
                        == self.session_map()[r@[i].0].target,
        {
            let id = *k;
            proof {
                assert(keys[it.index()] == id);
                assert(keys.contains(id));
                assert(keys.to_set().contains(id));
            }
            let session = match self.sessions.get(&id) {
                Some(s) => *s,
                None => {
                    proof {
                        assert(false);
                    }
                    TradeSession {
                        initiator: 0,
                        target: 0,
                        state: TradeState::Pending,
                        created_at: 0,
                        initiator_offer: TradeOffer::default(),
                        target_offer: TradeOffer::default(),
                        initiator_accepted: false,
                        target_accepted: false,
                    }
                },
            };
            let ghost before = r@;
            r.push((id, session.initiator, session.target));
            proof {
                assert(r@.map_values(|t: (u32, u64, u64)| t.0) =~= before.map_values(
                    |t: (u32, u64, u64)| t.0,
                ).push(id));
                assert(keys.take(it.index() + 1) =~= keys.take(it.index()).push(id));
            }
        }
        proof {
            assert(keys.take(keys.len() as int) =~= keys);
            keys.unique_seq_to_set();
        }
        r
    }

    /// Cancel the sessions with the given ids, in order (ids of sessions
    /// that no longer exist are skipped). Returns the `(initiator, target)`
    /// pair of each cancelled session so the server can notify both players.
    pub fn cancel_sessions(&mut self, ids: &[u32]) -> (pairs: Vec<(u64, u64)>)
        requires
            old(self).wf(),
        ensures
            final(self).wf(),
            pairs@ == cancelled_pairs(old(self).session_map(), ids@),
            final(self).next_session_id() == old(self).next_session_id(),
            forall|id: u32| #[trigger]
                final(self).session_map().contains_key(id) <==> (old(self).session_map().contains_key(
                    id,
                ) && !ids@.contains(id)),
            forall|id: u32| #[trigger]
                final(self).session_map().contains_key(id) ==> final(self).session_map()[id] == old(self).session_map()[id],
            forall|p: u64| #[trigger]
                final(self).index_map().contains_key(p) <==> (old(self).index_map().contains_key(p)
                    && !ids@.contains(old(self).index_map()[p])),
            forall|p: u64| #[trigger]
                final(self).index_map().contains_key(p) ==> final(self).index_map()[p] == old(self).index_map()[p],
    {
        let ghost start = *self;
        let mut pairs: Vec<(u64, u64)> = Vec::new();
        let mut i: usize = 0;
        while i < ids.len()
            invariant
                i <= ids@.len(),
                start == *old(self),
                self.wf(),
                pairs@ == cancelled_pairs(start.session_map(), ids@.take(i as int)),
                self.next_session_id() == start.next_session_id(),
                forall|id: u32| #[trigger]
                    self.session_map().contains_key(id) <==> (start.session_map().contains_key(id)
                        && !ids@.take(i as int).contains(id)),
                forall|id: u32| #[trigger]
                    self.session_map().contains_key(id) ==> self.session_map()[id]
                        == start.session_map()[id],
                forall|p: u64| #[trigger]
                    self.index_map().contains_key(p) <==> (start.index_map().contains_key(p)
                        && !ids@.take(i as int).contains(start.index_map()[p])),
                forall|p: u64| #[trigger]
                    self.index_map().contains_key(p) ==> self.index_map()[p] == start.index_map()[p],
                start.wf(),
            decreases ids.len() - i,
        {
            let id = ids[i];
            let ghost prefix = ids@.take(i as int);
            let ghost next = ids@.take(i + 1);
            proof {
                assert(next.drop_last() =~= prefix);
                assert(next.last() == id);
                assert forall|x: u32| next.contains(x) <==> (prefix.contains(x) || x == id) by {
                    if next.contains(x) {
                        let k = choose|k: int| 0 <= k < next.len() && #[trigger] next[k] == x;
                        if k < i {
                            assert(prefix[k] == x);
                        }
                    }
                    if prefix.contains(x) {
                        let k = choose|k: int| 0 <= k < prefix.len() && #[trigger] prefix[k] == x;
                        assert(next[k] == x);
                    }
                    if x == id {
                        assert(next[i as int] == x);
                    }
                }
            }
            let existing = match self.sessions.get(&id) {
                Some(s) => Some(*s),
                None => None,
            };
            match existing {
                Some(s) => {
                    let ghost before = *self;
                    self.remove_session(id);
                    pairs.push((s.initiator, s.target));
                    proof {
                        assert(start.session_map().contains_key(id) && !prefix.contains(id));
                        assert forall|p: u64| #[trigger]
                            self.index_map().contains_key(p) <==> (start.index_map().contains_key(p)
                                && !ids@.take(i + 1).contains(start.index_map()[p])) by {
                            if before.index_map().contains_key(p) && before.index_map()[p] == id {
                                assert(session_involves(before.session_map()[id], p));
                            }
                            if start.index_map().contains_key(p) && start.index_map()[p] == id {
                                assert(start.session_map().contains_key(id));
                                assert(session_involves(start.session_map()[id], p));
                                assert(before.index_map().contains_key(s.initiator));
                            }
                        }
                    }
                },
                None => {
                    proof {
                        assert forall|p: u64| #[trigger]
                            self.index_map().contains_key(p) <==> (start.index_map().contains_key(p)
                                && !ids@.take(i + 1).contains(start.index_map()[p])) by {
                            if start.index_map().contains_key(p) && start.index_map()[p] == id
                                && !prefix.contains(id) {
                                assert(start.session_map().contains_key(id));
                                assert(self.session_map().contains_key(id));
                            }
                        }
                        if start.session_map().contains_key(id) && !prefix.contains(id) {
                            assert(self.session_map().contains_key(id));
                        }
                    }
                },
            }
            i = i + 1;
        }
        proof {
            assert(ids@.take(i as int) =~= ids@);
        }
        pairs
    }

    /// Remove expired pending requests (e.g. after a timeout).
    pub fn cleanup_expired(&mut self, now: u64, timeout_secs: u64)
        requires
            old(self).wf(),
        ensures
            final(self).wf(),
            final(self).next_session_id() == old(self).next_session_id(),
            forall|id: u32| #[trigger]
                final(self).session_map().contains_key(id) <==> (old(self).session_map().contains_key(
                    id,
                ) && !request_expired(old(self).session_map()[id], now, timeout_secs)),
            forall|id: u32| #[trigger]
                final(self).session_map().contains_key(id) ==> final(self).session_map()[id] == old(self).session_map()[id],
            forall|p: u64| #[trigger]
                final(self).index_map().contains_key(p) <==> (old(self).index_map().contains_key(p)
                    && !request_expired(old(self).session_of(p), now, timeout_secs)),
            forall|p: u64| #[trigger]
                final(self).index_map().contains_key(p) ==> final(self).index_map()[p] == old(self).index_map()[p],
    {
        let pairs = self.session_pairs();
        let mut expired: Vec<u32> = Vec::new();
        let mut i: usize = 0;
        while i < pairs.len()
            invariant
                i <= pairs@.len(),
                self == old(self),
                forall|k: int|
                    0 <= k < pairs@.len() ==> self.session_map().contains_key((#[trigger] pairs@[k]).0),
                forall|x: u32|
                    expired@.contains(x) <==> (exists|k: int|
                        0 <= k < i && (#[trigger] pairs@[k]).0 == x && request_expired(
                            self.session_map()[x],
                            now,
                            timeout_secs,
                        )),
            decreases pairs.len() - i,
        {
            let id = pairs[i].0;
            let session = match self.sessions.get(&id) {
                Some(s) => *s,
                None => {
                    proof {
                        assert(false);
                    }
                    i = i + 1;
                    continue;
                },
            };
            let ghost before = expired@;
            let cond = session.state == TradeState::Pending && now.saturating_sub(session.created_at)
                > timeout_secs;
            proof {
                assert(session == self.session_map()[id]);
                assert(cond == request_expired(self.session_map()[id], now, timeout_secs));
            }
            if cond {
                expired.push(id);
            }
            proof {
                assert forall|x: u32|
                    expired@.contains(x) <==> (exists|k: int|
                        0 <= k < i + 1 && (#[trigger] pairs@[k]).0 == x && request_expired(
                            self.session_map()[x],
                            now,
                            timeout_secs,
                        )) by {
                    if expired@.contains(x) {
                        let j = choose|j: int| 0 <= j < expired@.len() && expired@[j] == x;
                        if j < before.len() {
                            assert(before[j] == x);
                            assert(before.contains(x));
                        } else {
                            assert(x == id);
                            assert(pairs@[i as int].0 == x);
                        }
                    }
                    if exists|k: int|
                        0 <= k < i + 1 && (#[trigger] pairs@[k]).0 == x && request_expired(
                            self.session_map()[x],
                            now,
                            timeout_secs,
                        ) {
                        let k = choose|k: int|
                            0 <= k < i + 1 && (#[trigger] pairs@[k]).0 == x && request_expired(
                                self.session_map()[x],
                                now,
                                timeout_secs,
                            );
                        if k == i {
                            assert(cond);
                            assert(expired@[expired@.len() - 1] == x);
                        } else {
                            assert(before.contains(x));
                            let j = choose|j: int| 0 <= j < before.len() && before[j] == x;
                            assert(expired@[j] == x);
                        }
                    }
                }
            }
            i = i + 1;
        }
        proof {
            let ks = pairs@.map_values(|t: (u32, u64, u64)| t.0);
            assert forall|x: u32| #[trigger]
                expired@.contains(x) <==> (self.session_map().contains_key(x) && request_expired(
                    self.session_map()[x],
                    now,
                    timeout_secs,
                )) by {
                if self.session_map().contains_key(x) {
                    assert(ks.to_set().contains(x));
                    assert(ks.contains(x));
                    let k = choose|k: int| 0 <= k < ks.len() && ks[k] == x;
                    assert(pairs@[k].0 == x);
                }
            }
        }
        self.cancel_sessions(expired.as_slice());
    }

    /// Number of active sessions.
    pub fn len(&self) -> (n: usize)
        ensures
            n == self.session_map().len(),
    {
        self.sessions.len()
    }

    /// Whether there are no active sessions.
    pub fn is_empty(&self) -> (b: bool)
        ensures
            b == (self.session_map().len() == 0),
    {
        self.sessions.len() == 0
    }
}

/// A player takes part in at most one session at a time.
pub proof fn lemma_one_session_per_player(m: TradeManager, id1: u32, id2: u32, player: u64)
    requires
        m.wf(),
        m.session_map().contains_key(id1),
        m.session_map().contains_key(id2),
        session_involves(m.session_map()[id1], player),
        session_involves(m.session_map()[id2], player),
    ensures
        id1 == id2,
{
}

/// Changing an offer always withdraws both acceptances, so a trade can
/// only complete on offers both players accepted as they stand.
pub proof fn lemma_offer_change_clears_accepts(s: TradeSession, player: u64, o: TradeOffer)
    ensures
        !with_offer(accepts_reset(s), player, o).initiator_accepted,
        !with_offer(accepts_reset(s), player, o).target_accepted,
{
}

/// A confirmation completes the trade exactly when the other player had
/// already accepted.
pub proof fn lemma_confirm_completes_when_other_accepted(s: TradeSession, player: u64)
    requires
        session_involves(s, player),
        s.initiator != s.target,
    ensures
        ({
            let t = with_accept(s, player, true);
            (t.initiator_accepted && t.target_accepted) == (if player == s.initiator {
                s.target_accepted
            } else {
                s.initiator_accepted
            })
        }),
{
}

} // verus!
