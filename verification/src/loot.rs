//! Loot system: loot drops, group loot rules, loot windows and AoE looting.
//!
//! Each creature has a loot table defining which items can drop. On kill,
//! the rolled drops fill a loot window that players pick items and gold from.
//!
//! Ref: AzerothCore `LootMgr.cpp`, `creature_loot_template` table.
use vstd::prelude::*;

verus! {

/// Loot entry type — determines drop behavior.
#[derive(Debug, Clone, Copy, PartialEq, Eq, Structural)]
pub enum LootEntryType {
    /// Normal drop: uses the entry's `chance` field.
    Normal,
    /// Rare/special drop: uses `chance` but flagged for UI highlight.
    Rare,
    /// Quest item: drops at 100% for eligible players, hidden for others.
    Quest,
}

/// A rolled loot item ready for the loot window.
#[derive(Debug, Clone, Copy, PartialEq, Eq, Structural)]
pub struct LootDrop {
    pub item_id: u32,
    pub count: u16,
}

// --- Group loot ---

/// Group loot distribution mode.
///
/// Ref: AzerothCore `LootMethod` enum.
#[derive(Debug, Clone, Copy, PartialEq, Eq, Structural)]
pub enum LootMode {
    /// Free for All — anyone can loot anything.
    FreeForAll,
    /// Round Robin — common items rotate between group members.
    RoundRobin,
    /// Need Before Greed — rare+ items trigger a roll window.
    NeedBeforeGreed,
    /// Personal Loot — each player gets their own independent roll (retail default).
    PersonalLoot,
}

/// A player's roll choice on a need/greed item.
#[derive(Debug, Clone, Copy, PartialEq, Eq, Structural)]
pub enum LootRollChoice {
    Need,
    Greed,
    Pass,
}

/// Result of a need/greed roll for one player.
#[derive(Debug, Clone, Copy, PartialEq, Eq, Structural)]
pub struct LootRollEntry {
    pub player_id: u64,
    pub choice: LootRollChoice,
    /// Random roll value (1–100) for tiebreaking within Need or Greed.
    pub roll_value: u8,
}

/// Some entry made the choice `c`.
pub open spec fn has_choice(s: Seq<LootRollEntry>, c: LootRollChoice) -> bool {
    exists|i: int| 0 <= i < s.len() && #[trigger] s[i].choice == c
}

/// Entry `i` made the choice `c`, rolled the highest among those that did,
/// and no later entry with that choice rolled as high (on a tie the last
/// of the highest rolls wins).
pub open spec fn is_winning_roll(s: Seq<LootRollEntry>, c: LootRollChoice, i: int) -> bool {
    &&& 0 <= i < s.len()
    &&& s[i].choice == c
    &&& forall|j: int|
        0 <= j < s.len() && #[trigger] s[j].choice == c ==> s[j].roll_value <= s[i].roll_value
    &&& forall|j: int|
        i < j < s.len() && #[trigger] s[j].choice == c ==> s[j].roll_value < s[i].roll_value
}

/// The player with the winning roll among those choosing `c`, if any did.
pub open spec fn winner_of(s: Seq<LootRollEntry>, c: LootRollChoice) -> Option<u64> {
    if has_choice(s, c) {
        Some(s[choose|i: int| is_winning_roll(s, c, i)].player_id)
    } else {
        None
    }
}

/// Need rolls beat Greed rolls; everyone passing leaves no winner.
pub open spec fn need_greed_winner(s: Seq<LootRollEntry>) -> Option<u64> {
    match winner_of(s, LootRollChoice::Need) {
        Some(p) => Some(p),
        None => winner_of(s, LootRollChoice::Greed),
    }
}

/// At most one entry holds the winning roll for a choice.
pub proof fn lemma_winning_roll_unique(s: Seq<LootRollEntry>, c: LootRollChoice, i: int, j: int)
    requires
        is_winning_roll(s, c, i),
        is_winning_roll(s, c, j),
    ensures
        i == j,
{
    if i < j {
        assert(s[j].roll_value < s[i].roll_value);
        assert(s[i].roll_value <= s[j].roll_value);
    } else if j < i {
        assert(s[i].roll_value < s[j].roll_value);
        assert(s[j].roll_value <= s[i].roll_value);
    }
}

/// Whenever some entry made the choice, one of them holds the winning roll.
pub proof fn lemma_winner_exists(s: Seq<LootRollEntry>, c: LootRollChoice)
    requires
        has_choice(s, c),
    ensures
        exists|i: int| is_winning_roll(s, c, i),
    decreases s.len(),
{
    let last = s.len() - 1;
    let rest = s.drop_last();
    if has_choice(rest, c) {
        lemma_winner_exists(rest, c);
        let i = choose|i: int| is_winning_roll(rest, c, i);
        if s[last].choice == c && s[last].roll_value >= s[i].roll_value {
            assert forall|j: int| 0 <= j < s.len() && #[trigger] s[j].choice == c implies s[j].roll_value
                <= s[last].roll_value by {
                if j < last {
                    assert(rest[j].choice == c);
                }
            }
            assert(is_winning_roll(s, c, last));
        } else {
            assert forall|j: int| 0 <= j < s.len() && #[trigger] s[j].choice == c implies s[j].roll_value
                <= s[i].roll_value by {
                if j < last {
                    assert(rest[j].choice == c);
                }
            }
            assert forall|j: int| i < j < s.len() && #[trigger] s[j].choice == c implies s[j].roll_value
                < s[i].roll_value by {
                if j < last {
                    assert(rest[j].choice == c);
                }
            }
            assert(is_winning_roll(s, c, i));
        }
    } else {
        let k = choose|k: int| 0 <= k < s.len() && #[trigger] s[k].choice == c;
        assert(k == last) by {
            if k < last {
                assert(rest[k].choice == c);
            }
        }
        assert forall|j: int| 0 <= j < s.len() && #[trigger] s[j].choice == c implies j == last by {
            if j < last {
                assert(rest[j].choice == c);
            }
        }
        assert(is_winning_roll(s, c, last));
    }
}

/// Need before greed: whenever anyone rolls Need, the item goes to the Need
/// roller with the highest roll; Greed rolls count only when nobody needs,
/// and nobody wins when everyone passes.
pub proof fn lemma_need_before_greed(s: Seq<LootRollEntry>)
    ensures
        has_choice(s, LootRollChoice::Need) ==> exists|i: int|
            is_winning_roll(s, LootRollChoice::Need, i) && need_greed_winner(s) == Some(
                s[i].player_id,
            ),
        !has_choice(s, LootRollChoice::Need) && has_choice(s, LootRollChoice::Greed) ==> exists|
            i: int,
        |
            is_winning_roll(s, LootRollChoice::Greed, i) && need_greed_winner(s) == Some(
                s[i].player_id,
            ),
        !has_choice(s, LootRollChoice::Need) && !has_choice(s, LootRollChoice::Greed)
            ==> need_greed_winner(s) is None,
{
    if has_choice(s, LootRollChoice::Need) {
        lemma_winner_exists(s, LootRollChoice::Need);
    } else if has_choice(s, LootRollChoice::Greed) {
        lemma_winner_exists(s, LootRollChoice::Greed);
    }
}

/// Index of the winning roll among the entries choosing `c`.
fn best_roll(entries: &[LootRollEntry], c: LootRollChoice) -> (r: Option<usize>)
    ensures
        match r {
            Some(i) => is_winning_roll(entries@, c, i as int),
            None => !has_choice(entries@, c),
        },
{
    let mut best: Option<usize> = None;
    let mut i: usize = 0;
    while i < entries.len()
        invariant
            i <= entries@.len(),
            match best {
                Some(b) => {
                    &&& b < i
                    &&& is_winning_roll(entries@.take(i as int), c, b as int)
                },
                None => forall|k: int| 0 <= k < i ==> #[trigger] entries@[k].choice != c,
            },
        decreases entries.len() - i,
    {
        let e = entries[i];
        if e.choice == c {
            match best {
                Some(b) => {
                    if e.roll_value >= entries[b].roll_value {
                        best = Some(i);
                    }
                },
                None => {
                    best = Some(i);
                },
            }
        }
        proof {
            let t = entries@.take(i + 1);
            assert(t[i as int] == e);
            assert forall|k: int| 0 <= k < i implies #[trigger] t[k] == entries@.take(
                i as int,
            )[k] by {}
        }
        i = i + 1;
    }
    proof {
        assert(entries@.take(i as int) =~= entries@);
        if best is None {
            assert(!has_choice(entries@, c));
        }
    }
    best
}

/// Resolve a need/greed roll: highest Need wins, then highest Greed.
/// Returns the winner's player_id, or None if everyone passed.
pub fn resolve_need_greed(entries: &[LootRollEntry]) -> (winner: Option<u64>)
    ensures
        winner == need_greed_winner(entries@),
{
    match best_roll(entries, LootRollChoice::Need) {
        Some(i) => {
            proof {
                let k = choose|k: int| is_winning_roll(entries@, LootRollChoice::Need, k);
                lemma_winning_roll_unique(entries@, LootRollChoice::Need, i as int, k);
            }
            Some(entries[i].player_id)
        },
        None => match best_roll(entries, LootRollChoice::Greed) {
            Some(i) => {
                proof {
                    let k = choose|k: int| is_winning_roll(entries@, LootRollChoice::Greed, k);
                    lemma_winning_roll_unique(entries@, LootRollChoice::Greed, i as int, k);
                }
                Some(entries[i].player_id)
            },
            None => None,
        },
    }
}

/// Assign a loot item based on the group's loot mode.
///
/// Returns the player_id who receives the item.
/// - FFA/PersonalLoot: `looter` (whoever opened the corpse / the designated player).
/// - RoundRobin: `round_robin_next` (rotated by the server).
/// - NeedBeforeGreed: resolved from `roll_entries`.
pub fn assign_loot(
    mode: LootMode,
    looter: u64,
    round_robin_next: u64,
    roll_entries: &[LootRollEntry],
) -> (r: Option<u64>)
    ensures
        r == match mode {
            LootMode::FreeForAll | LootMode::PersonalLoot => Some(looter),
            LootMode::RoundRobin => Some(round_robin_next),
            LootMode::NeedBeforeGreed => need_greed_winner(roll_entries@),
        },
{
    match mode {
        LootMode::FreeForAll | LootMode::PersonalLoot => Some(looter),
        LootMode::RoundRobin => Some(round_robin_next),
        LootMode::NeedBeforeGreed => resolve_need_greed(roll_entries),
    }
}

// --- Need/greed roll window ---

/// The automatic Pass recorded for a player who cannot or did not roll.
pub open spec fn pass_entry(player_id: u64) -> LootRollEntry {
    LootRollEntry { player_id, choice: LootRollChoice::Pass, roll_value: 0 }
}

/// Players who can equip the item.
pub open spec fn can_roll(can_equip: Seq<u64>) -> spec_fn(u64) -> bool {
    |p: u64| can_equip.contains(p)
}

/// Players who cannot equip the item.
pub open spec fn cannot_roll(can_equip: Seq<u64>) -> spec_fn(u64) -> bool {
    |p: u64| !can_equip.contains(p)
}

/// Tracks a per-item need/greed roll in progress.
///
/// Created when a rare+ item drops in NeedBeforeGreed mode.
/// Each eligible player must respond (Need/Greed/Pass) or be auto-passed
/// when the roll times out. Players who can't equip the item are auto-passed
/// immediately. The countdown itself is kept by the caller, which calls
/// `auto_pass_remaining` when it runs out.
#[derive(Debug, Clone, PartialEq)]
pub struct RollWindow {
    /// The item being rolled on.
    pub item: LootDrop,
    /// Players who are eligible to roll (not auto-passed).
    pub pending_players: Vec<u64>,
    /// Completed roll responses.
    pub responses: Vec<LootRollEntry>,
}

fn auto_pass_entry(player_id: u64) -> (e: LootRollEntry)
    ensures
        e == pass_entry(player_id),
{
    LootRollEntry { player_id, choice: LootRollChoice::Pass, roll_value: 0 }
}

fn contains_player(players: &[u64], player_id: u64) -> (b: bool)
    ensures
        b == players@.contains(player_id),
{
    let mut i: usize = 0;
    while i < players.len()
        invariant
            i <= players@.len(),
            forall|k: int| 0 <= k < i ==> players@[k] != player_id,
        decreases players.len() - i,
    {
        if players[i] == player_id {
            return true;
        }
        i = i + 1;
    }
    false
}

fn partition_roll_players(group_players: &[u64], can_equip: &[u64]) -> (r: (
    Vec<u64>,
    Vec<LootRollEntry>,
))
    ensures
        r.0@ == group_players@.filter(can_roll(can_equip@)),
        r.1@ == group_players@.filter(cannot_roll(can_equip@)).map_values(|p: u64| pass_entry(p)),
{
    let mut pending: Vec<u64> = Vec::new();
    let mut responses: Vec<LootRollEntry> = Vec::new();
    let mut i: usize = 0;
    while i < group_players.len()
        invariant
            i <= group_players@.len(),
            pending@ == group_players@.take(i as int).filter(can_roll(can_equip@)),
            responses@ == group_players@.take(i as int).filter(cannot_roll(can_equip@)).map_values(
                |p: u64| pass_entry(p),
            ),
        decreases group_players.len() - i,
    {
        proof {
            reveal(Seq::filter);
            assert(group_players@.take(i + 1).drop_last() =~= group_players@.take(i as int));
            assert(group_players@.take(i + 1).last() == group_players@[i as int]);
        }
        let p = group_players[i];
        if contains_player(can_equip, p) {
            pending.push(p);
        } else {
            let e = auto_pass_entry(p);
            let ghost before = group_players@.take(i as int).filter(cannot_roll(can_equip@));
            responses.push(e);
            proof {
                assert(before.push(p).map_values(|q: u64| pass_entry(q)) =~= before.map_values(
                    |q: u64| pass_entry(q),
                ).push(e));
            }
        }
        i = i + 1;
    }
    proof {
        assert(group_players@.take(i as int) =~= group_players@);
    }
    (pending, responses)
}

/// Taking a pending player's place with the last pending player and dropping
/// the last place removes exactly one occurrence of that player.
proof fn lemma_swap_remove_multiset(pending: Seq<u64>, idx: int)
    requires
        0 <= idx < pending.len(),
    ensures
        pending.update(idx, pending.last()).drop_last().to_multiset() == pending.to_multiset().remove(
            pending[idx],
        ),
{
    broadcast use vstd::seq_lib::group_to_multiset_ensures;
    broadcast use vstd::multiset::group_multiset_axioms;

    let n = pending.len();
    let u = pending.update(idx, pending.last());
    vstd::seq_lib::to_multiset_update(pending, idx, pending.last());
    assert(u.drop_last() =~= u.remove(n - 1));
    assert(u[n - 1] == pending.last());
    assert(u.remove(n - 1).to_multiset() =~= u.to_multiset().remove(u[n - 1]));
    assert(pending.to_multiset().insert(pending.last()).remove(pending[idx]).remove(pending.last())
        =~= pending.to_multiset().remove(pending[idx]));
}

/// A player who was pending once can respond only once: after a successful
/// response they are no longer pending, so a second response is refused.
pub proof fn lemma_second_response_refused(before: Seq<u64>, after: Seq<u64>, player_id: u64)
    requires
        before.to_multiset().count(player_id) == 1,
        after.to_multiset() == before.to_multiset().remove(player_id),
    ensures
        !after.contains(player_id),
{
    broadcast use vstd::seq_lib::group_to_multiset_ensures;
    broadcast use vstd::multiset::group_multiset_axioms;

    assert(after.to_multiset().count(player_id) == 0);
}

impl RollWindow {
    /// Create a roll window for an item.
    ///
    /// `group_players` are those in range. `can_equip` filters who can
    /// Need — players who can't equip are auto-passed immediately.
    pub fn new(item: LootDrop, group_players: &[u64], can_equip: &[u64]) -> (w: Self)
        ensures
            w.item == item,
            w.pending_players@ == group_players@.filter(can_roll(can_equip@)),
            w.responses@ == group_players@.filter(cannot_roll(can_equip@)).map_values(
                |p: u64| pass_entry(p),
            ),
    {
        let (pending_players, responses) = partition_roll_players(group_players, can_equip);
        RollWindow { item, pending_players, responses }
    }

    /// Record a player's choice. Returns `true` if accepted, that is, if the
    /// player was still pending; their first pending place is taken by the
    /// last pending player.
    pub fn respond(&mut self, player_id: u64, choice: LootRollChoice, roll_value: u8) -> (ok: bool)
        ensures
            ok == old(self).pending_players@.contains(player_id),
            final(self).item == old(self).item,
            ok ==> {
                let pending = old(self).pending_players@;
                let idx = choose|k: int|
                    0 <= k < pending.len() && pending[k] == player_id && forall|m: int|
                        0 <= m < k ==> pending[m] != player_id;
                &&& final(self).pending_players@ == pending.update(idx, pending.last()).drop_last()
                &&& final(self).pending_players@.to_multiset() == pending.to_multiset().remove(
                    player_id,
                )
                &&& final(self).responses@ == old(self).responses@.push(
                    LootRollEntry { player_id, choice, roll_value },
                )
            },
            !ok ==> final(self).pending_players@ == old(self).pending_players@
                && final(self).responses@ == old(self).responses@,
    {
        let mut i: usize = 0;
        while i < self.pending_players.len()
            invariant
                i <= self.pending_players@.len(),
                self.pending_players@ == old(self).pending_players@,
                self.responses@ == old(self).responses@,
                self.item == old(self).item,
                forall|k: int| 0 <= k < i ==> self.pending_players@[k] != player_id,
            decreases self.pending_players.len() - i,
        {
            if self.pending_players[i] == player_id {
                let ghost pending = old(self).pending_players@;
                proof {
                    let idx = choose|k: int|
                        0 <= k < pending.len() && pending[k] == player_id && forall|m: int|
                            0 <= m < k ==> pending[m] != player_id;
                    assert(0 <= i < pending.len() && pending[i as int] == player_id && forall|m: int|
                        0 <= m < i ==> pending[m] != player_id);
                    if idx < i {
                        assert(pending[idx] != player_id);
                    } else if idx > i {
                        assert(pending[i as int] != player_id);
                    }
                }
                proof {
                    lemma_swap_remove_multiset(pending, i as int);
                }
                self.pending_players.swap_remove(i);
                self.responses.push(LootRollEntry { player_id, choice, roll_value });
                return true;
            }
            i = i + 1;
        }
        false
    }

    /// Whether all players have responded.
    pub fn is_complete(&self) -> (b: bool)
        ensures
            b == (self.pending_players@.len() == 0),
    {
        self.pending_players.len() == 0
    }

    /// Resolve the winner from the responses so far.
    pub fn resolve(&self) -> (winner: Option<u64>)
        ensures
            winner == need_greed_winner(self.responses@),
    {
        resolve_need_greed(self.responses.as_slice())
    }

    /// Auto-pass every player who has not responded (the roll timed out).
    pub fn auto_pass_remaining(&mut self)
        ensures
            final(self).item == old(self).item,
            final(self).pending_players@.len() == 0,
            final(self).responses@ == old(self).responses@ + old(self).pending_players@.map_values(
                |p: u64| pass_entry(p),
            ),
    {
        let mut i: usize = 0;
        while i < self.pending_players.len()
            invariant
                i <= self.pending_players@.len(),
                self.pending_players@ == old(self).pending_players@,
                self.item == old(self).item,
                self.responses@ == old(self).responses@ + old(self).pending_players@.take(
                    i as int,
                ).map_values(|p: u64| pass_entry(p)),
            decreases self.pending_players.len() - i,
        {
            let e = auto_pass_entry(self.pending_players[i]);
            self.responses.push(e);
            proof {
                let pend = old(self).pending_players@;
                assert(pend.take(i + 1).map_values(|p: u64| pass_entry(p)) =~= pend.take(
                    i as int,
                ).map_values(|p: u64| pass_entry(p)).push(e));
            }
            i = i + 1;
        }
        proof {
            assert(old(self).pending_players@.take(i as int) =~= old(self).pending_players@);
        }
        self.pending_players.clear();
    }
}

// --- Loot window ---

/// State of a single item in a loot window.
#[derive(Debug, Clone, Copy, PartialEq, Eq, Structural)]
pub enum LootSlotState {
    /// Available to be looted.
    Available,
    /// Already looted by someone.
    Looted,
}

/// A slot in the loot window.
#[derive(Debug, Clone, Copy, PartialEq, Eq, Structural)]
pub struct LootSlot {
    pub item_id: u32,
    pub count: u16,
    pub state: LootSlotState,
}

/// A loot window generated from a mob death.
///
/// Created when a creature dies, populated by rolling its loot table.
/// Players interact with the window to pick up items. Gold is tracked
/// separately from item drops.
#[derive(Debug, Clone, PartialEq)]
pub struct LootWindow {
    /// Entity bits of the creature corpse.
    pub source: u64,
    /// Item slots available for looting.
    pub slots: Vec<LootSlot>,
    /// Gold drop in copper.
    pub gold: u32,
    /// Whether gold has been looted.
    pub gold_looted: bool,
}

/// An available slot holding a drop.
pub open spec fn fresh_slot(d: LootDrop) -> LootSlot {
    LootSlot { item_id: d.item_id, count: d.count, state: LootSlotState::Available }
}

/// The same slot once looted.
pub open spec fn looted_slot(s: LootSlot) -> LootSlot {
    LootSlot { state: LootSlotState::Looted, ..s }
}

/// The drop a slot hands out.
pub open spec fn slot_drop(s: LootSlot) -> LootDrop {
    LootDrop { item_id: s.item_id, count: s.count }
}

/// Slots that can still be looted.
pub open spec fn is_available() -> spec_fn(LootSlot) -> bool {
    |s: LootSlot| s.state == LootSlotState::Available
}

/// The drops still waiting in these slots, in slot order.
pub open spec fn available_drops(slots: Seq<LootSlot>) -> Seq<LootDrop> {
    slots.filter(is_available()).map_values(|s: LootSlot| slot_drop(s))
}

/// Every item taken and the gold (if any) taken.
pub open spec fn fully_looted(slots: Seq<LootSlot>, gold: u32, gold_looted: bool) -> bool {
    &&& forall|i: int| 0 <= i < slots.len() ==> #[trigger] slots[i].state == LootSlotState::Looted
    &&& (gold == 0 || gold_looted)
}

impl LootWindow {
    /// Build a loot window from the drops rolled for a mob death
    /// (in drop order) and its gold.
    pub fn from_drops(source: u64, drops: &[LootDrop], gold: u32) -> (w: Self)
        ensures
            w.source == source,
            w.slots@ == drops@.map_values(|d: LootDrop| fresh_slot(d)),
            w.gold == gold,
            !w.gold_looted,
    {
        let mut slots: Vec<LootSlot> = Vec::new();
        let mut i: usize = 0;
        while i < drops.len()
            invariant
                i <= drops@.len(),
                slots@ == drops@.take(i as int).map_values(|d: LootDrop| fresh_slot(d)),
            decreases drops.len() - i,
        {
            let d = drops[i];
            slots.push(LootSlot { item_id: d.item_id, count: d.count, state: LootSlotState::Available });
            proof {
                assert(drops@.take(i + 1).map_values(|d: LootDrop| fresh_slot(d)) =~= drops@.take(
                    i as int,
                ).map_values(|d: LootDrop| fresh_slot(d)).push(fresh_slot(d)));
            }
            i = i + 1;
        }
        proof {
            assert(drops@.take(i as int) =~= drops@);
        }
        LootWindow { source, slots, gold, gold_looted: false }
    }

    /// Loot an item from a slot by index. Returns the item if available.
    pub fn loot_item(&mut self, index: usize) -> (r: Option<LootDrop>)
        ensures
            final(self).source == old(self).source,
            final(self).gold == old(self).gold,
            final(self).gold_looted == old(self).gold_looted,
            (index < old(self).slots@.len() && old(self).slots@[index as int].state
                == LootSlotState::Available) ==> {
                &&& r == Some(slot_drop(old(self).slots@[index as int]))
                &&& final(self).slots@ == old(self).slots@.update(
                    index as int,
                    looted_slot(old(self).slots@[index as int]),
                )
            },
            !(index < old(self).slots@.len() && old(self).slots@[index as int].state
                == LootSlotState::Available) ==> {
                &&& r is None
                &&& final(self).slots@ == old(self).slots@
            },
    {
        if index >= self.slots.len() {
            return None;
        }
        let slot = self.slots[index];
        if slot.state != LootSlotState::Available {
            return None;
        }
        self.slots.set(index, LootSlot { state: LootSlotState::Looted, ..slot });
        Some(LootDrop { item_id: slot.item_id, count: slot.count })
    }

    /// Loot the gold. Returns the amount if not already looted.
    pub fn loot_gold(&mut self) -> (r: Option<u32>)
        ensures
            final(self).source == old(self).source,
            final(self).slots@ == old(self).slots@,
            final(self).gold == old(self).gold,
            (old(self).gold_looted || old(self).gold == 0) ==> r is None && final(self).gold_looted
                == old(self).gold_looted,
            !(old(self).gold_looted || old(self).gold == 0) ==> r == Some(old(self).gold)
                && final(self).gold_looted,
    {
        if self.gold_looted || self.gold == 0 {
            return None;
        }
        self.gold_looted = true;
        Some(self.gold)
    }

    /// Whether all items and gold have been looted (corpse can despawn).
    pub fn is_fully_looted(&self) -> (b: bool)
        ensures
            b == fully_looted(self.slots@, self.gold, self.gold_looted),
    {
        let mut i: usize = 0;
        while i < self.slots.len()
            invariant
                i <= self.slots@.len(),
                forall|k: int| 0 <= k < i ==> #[trigger] self.slots@[k].state == LootSlotState::Looted,
            decreases self.slots.len() - i,
        {
            if self.slots[i].state != LootSlotState::Looted {
                return false;
            }
            i = i + 1;
        }
        self.gold == 0 || self.gold_looted
    }

    /// Number of items still available to loot.
    pub fn available_count(&self) -> (n: usize)
        ensures
            n == self.slots@.filter(is_available()).len(),
    {
        let mut n: usize = 0;
        let mut i: usize = 0;
        while i < self.slots.len()
            invariant
                i <= self.slots@.len(),
                n == self.slots@.take(i as int).filter(is_available()).len(),
                n <= i,
            decreases self.slots.len() - i,
        {
            proof {
                reveal(Seq::filter);
                assert(self.slots@.take(i + 1).drop_last() =~= self.slots@.take(i as int));
                assert(self.slots@.take(i + 1).last() == self.slots@[i as int]);
            }
            if self.slots[i].state == LootSlotState::Available {
                n = n + 1;
            }
            i = i + 1;
        }
        proof {
            assert(self.slots@.take(i as int) =~= self.slots@);
        }
        n
    }
}

// --- Loot sparkle ---

/// Marker indicating a corpse has loot available for a specific player.
///
/// The client uses this to render a sparkle/glow effect on the corpse.
/// Added when a mob dies and has loot; removed when the corpse is fully
/// looted or despawns.
///
/// In personal loot, each player may see different sparkles. In group loot,
/// all eligible players see the sparkle until loot is claimed.
#[derive(Debug, Clone, Copy, PartialEq, Eq, Structural)]
pub struct LootSparkle {
    /// Entity bits of the corpse.
    pub corpse: u64,
}

/// Corpses whose window still holds something.
pub open spec fn has_loot_left<'a>() -> spec_fn((u64, &'a LootWindow)) -> bool {
    |e: (u64, &'a LootWindow)| !fully_looted(e.1.slots@, e.1.gold, e.1.gold_looted)
}

/// Determine which corpses should show a loot sparkle for a player.
///
/// A corpse sparkles if its loot window has available items or unclaimed gold.
pub fn sparkle_corpses(windows: &[(u64, &LootWindow)]) -> (r: Vec<LootSparkle>)
    ensures
        r@ == windows@.filter(has_loot_left()).map_values(
            |e: (u64, &LootWindow)| LootSparkle { corpse: e.0 },
        ),
{
    let mut r: Vec<LootSparkle> = Vec::new();
    let mut i: usize = 0;
    while i < windows.len()
        invariant
            i <= windows@.len(),
            r@ == windows@.take(i as int).filter(has_loot_left()).map_values(
                |e: (u64, &LootWindow)| LootSparkle { corpse: e.0 },
            ),
        decreases windows.len() - i,
    {
        proof {
            reveal(Seq::filter);
            assert(windows@.take(i + 1).drop_last() =~= windows@.take(i as int));
            assert(windows@.take(i + 1).last() == windows@[i as int]);
        }
        let (entity, w) = windows[i];
        if !w.is_fully_looted() {
            let ghost before = windows@.take(i as int).filter(has_loot_left());
            r.push(LootSparkle { corpse: entity });
            proof {
                assert(before.push(windows@[i as int]).map_values(
                    |e: (u64, &LootWindow)| LootSparkle { corpse: e.0 },
                ) =~= before.map_values(|e: (u64, &LootWindow)| LootSparkle { corpse: e.0 }).push(
                    LootSparkle { corpse: entity },
                ));
            }
        }
        i = i + 1;
    }
    proof {
        assert(windows@.take(i as int) =~= windows@);
    }
    r
}

// --- AoE looting ---

/// Result of AoE looting: items and gold collected from multiple corpses.
#[derive(Debug, Clone, PartialEq)]
pub struct AoeLootResult {
    /// Items collected from all corpses.
    pub items: Vec<LootDrop>,
    /// Total gold collected in copper.
    pub gold: u32,
    /// Entity bits of corpses that were fully looted (for despawn).
    pub fully_looted: Vec<u64>,
}

impl Default for AoeLootResult {
    fn default() -> (r: Self)
        ensures
            r.items@.len() == 0,
            r.gold == 0,
            r.fully_looted@.len() == 0,
    {
        AoeLootResult { items: Vec::new(), gold: 0, fully_looted: Vec::new() }
    }
}

/// `after` is `before` with every item and the gold (if any) taken.
pub open spec fn emptied(before: LootWindow, after: LootWindow) -> bool {
    &&& after.source == before.source
    &&& after.slots@ == before.slots@.map_values(|s: LootSlot| looted_slot(s))
    &&& after.gold == before.gold
    &&& after.gold_looted == (before.gold_looted || before.gold != 0)
}

/// Gold a window still holds.
pub open spec fn gold_left(w: LootWindow) -> int {
    if w.gold_looted || w.gold == 0 {
        0
    } else {
        w.gold as int
    }
}

/// Windows whose corpse is within range.
pub open spec fn within(in_range: Seq<u64>) -> spec_fn((u64, LootWindow)) -> bool {
    |e: (u64, LootWindow)| in_range.contains(e.0)
}

/// Items AoE looting collects from the windows in range, window by window.
pub open spec fn aoe_items(windows: Seq<(u64, LootWindow)>, in_range: Seq<u64>) -> Seq<LootDrop>
    decreases windows.len(),
{
    if windows.len() == 0 {
        Seq::empty()
    } else {
        let last = windows.last();
        aoe_items(windows.drop_last(), in_range) + if in_range.contains(last.0) {
            available_drops(last.1.slots@)
        } else {
            Seq::empty()
        }
    }
}

/// Gold AoE looting collects from the windows in range.
pub open spec fn aoe_gold(windows: Seq<(u64, LootWindow)>, in_range: Seq<u64>) -> int
    decreases windows.len(),
{
    if windows.len() == 0 {
        0
    } else {
        let last = windows.last();
        aoe_gold(windows.drop_last(), in_range) + if in_range.contains(last.0) {
            gold_left(last.1)
        } else {
            0
        }
    }
}

proof fn lemma_aoe_gold_prefix(windows: Seq<(u64, LootWindow)>, in_range: Seq<u64>, i: int)
    requires
        0 <= i <= windows.len(),
    ensures
        0 <= aoe_gold(windows.take(i), in_range) <= aoe_gold(windows, in_range),
    decreases windows.len(),
{
    if windows.len() > 0 {
        if i == windows.len() {
            assert(windows.take(i) =~= windows);
            lemma_aoe_gold_prefix(windows.drop_last(), in_range, windows.len() - 1);
            assert(windows.drop_last().take(windows.len() - 1) =~= windows.drop_last());
        } else {
            lemma_aoe_gold_prefix(windows.drop_last(), in_range, i);
            assert(windows.drop_last().take(i) =~= windows.take(i));
        }
    }
}

/// A window emptied by AoE looting is fully looted, so its corpse can despawn.
pub proof fn lemma_emptied_is_fully_looted(before: LootWindow, after: LootWindow)
    requires
        emptied(before, after),
    ensures
        fully_looted(after.slots@, after.gold, after.gold_looted),
{
}

/// Take every available item and the gold from one window.
fn loot_everything(w: &mut LootWindow) -> (r: (Vec<LootDrop>, Option<u32>))
    ensures
        emptied(*old(w), *final(w)),
        r.0@ == available_drops(old(w).slots@),
        r.1 == (if gold_left(*old(w)) == 0 { None } else { Some(old(w).gold) }),
        fully_looted(final(w).slots@, final(w).gold, final(w).gold_looted),
{
    let ghost start = w.slots@;
    let mut items: Vec<LootDrop> = Vec::new();
    let mut i: usize = 0;
    while i < w.slots.len()
        invariant
            i <= w.slots@.len(),
            w.slots@.len() == start.len(),
            w.source == old(w).source,
            w.gold == old(w).gold,
            w.gold_looted == old(w).gold_looted,
            start == old(w).slots@,
            forall|k: int| 0 <= k < i ==> #[trigger] w.slots@[k] == looted_slot(start[k]),
            forall|k: int| i <= k < start.len() ==> #[trigger] w.slots@[k] == start[k],
            items@ == available_drops(start.take(i as int)),
        decreases w.slots.len() - i,
    {
        proof {
            reveal(Seq::filter);
            assert(start.take(i + 1).drop_last() =~= start.take(i as int));
            assert(start.take(i + 1).last() == start[i as int]);
        }
        let got = w.loot_item(i);
        match got {
            Some(d) => {
                let ghost before = start.take(i as int).filter(is_available());
                items.push(d);
                proof {
                    assert(before.push(start[i as int]).map_values(|s: LootSlot| slot_drop(s))
                        =~= before.map_values(|s: LootSlot| slot_drop(s)).push(d));
                }
            },
            None => {
                assert(w.slots@[i as int] == looted_slot(start[i as int]));
            },
        }
        i = i + 1;
    }
    proof {
        assert(start.take(i as int) =~= start);
        assert(w.slots@ =~= start.map_values(|s: LootSlot| looted_slot(s)));
    }
    let gold = w.loot_gold();
    (items, gold)
}

fn append_drops(dst: &mut Vec<LootDrop>, src: &Vec<LootDrop>)
    ensures
        final(dst)@ == old(dst)@ + src@,
{
    let mut j: usize = 0;
    while j < src.len()
        invariant
            j <= src@.len(),
            dst@ == old(dst)@ + src@.take(j as int),
        decreases src.len() - j,
    {
        dst.push(src[j]);
        proof {
            assert(src@.take(j + 1) =~= src@.take(j as int).push(src@[j as int]));
        }
        j = j + 1;
    }
    proof {
        assert(src@.take(j as int) =~= src@);
    }
}

/// Perform AoE loot: collect all available items and gold from the loot
/// windows whose corpse is in `in_range` (the corpses within the loot radius).
///
/// Each window is looted completely (all items + gold). Returns the
/// aggregate result. Windows that become fully looted are tracked for
/// corpse despawn.
pub fn aoe_loot(windows: &mut Vec<(u64, LootWindow)>, in_range: &[u64]) -> (result: AoeLootResult)
    requires
        aoe_gold(old(windows)@, in_range@) <= u32::MAX,
    ensures
        final(windows)@.len() == old(windows)@.len(),
        forall|i: int|
            0 <= i < old(windows)@.len() ==> {
                let (e, w) = old(windows)@[i];
                &&& (#[trigger] final(windows)@[i]).0 == e
                &&& in_range@.contains(e) ==> emptied(w, final(windows)@[i].1)
                &&& !in_range@.contains(e) ==> final(windows)@[i].1 == w
            },
        result.items@ == aoe_items(old(windows)@, in_range@),
        result.gold == aoe_gold(old(windows)@, in_range@),
        result.fully_looted@ == old(windows)@.filter(within(in_range@)).map_values(
            |e: (u64, LootWindow)| e.0,
        ),
{
    let ghost start = windows@;
    let mut result = AoeLootResult::default();
    let mut i: usize = 0;
    while i < windows.len()
        invariant
            i <= windows@.len(),
            windows@.len() == start.len(),
            start == old(windows)@,
            aoe_gold(start, in_range@) <= u32::MAX,
            forall|k: int|
                0 <= k < i ==> {
                    let (e, w) = start[k];
                    &&& (#[trigger] windows@[k]).0 == e
                    &&& in_range@.contains(e) ==> emptied(w, windows@[k].1)
                    &&& !in_range@.contains(e) ==> windows@[k].1 == w
                },
            forall|k: int| i <= k < start.len() ==> #[trigger] windows@[k] == start[k],
            result.items@ == aoe_items(start.take(i as int), in_range@),
            result.gold == aoe_gold(start.take(i as int), in_range@),
            result.fully_looted@ == start.take(i as int).filter(within(in_range@)).map_values(
                |e: (u64, LootWindow)| e.0,
            ),
        decreases windows.len() - i,
    {
        proof {
            reveal(Seq::filter);
            assert(start.take(i + 1).drop_last() =~= start.take(i as int));
            assert(start.take(i + 1).last() == start[i as int]);
            lemma_aoe_gold_prefix(start, in_range@, i + 1);
            assert(aoe_gold(start.take(i + 1), in_range@) == aoe_gold(start.take(i as int), in_range@)
                + if in_range@.contains(start[i as int].0) {
                gold_left(start[i as int].1)
            } else {
                0
            });
            assert(aoe_items(start.take(i + 1), in_range@) == aoe_items(start.take(i as int), in_range@)
                + if in_range@.contains(start[i as int].0) {
                available_drops(start[i as int].1.slots@)
            } else {
                Seq::empty()
            });
        }
        let entity = windows[i].0;
        if contains_player(in_range, entity) {
            let (items, gold) = loot_everything(&mut windows[i].1);
            append_drops(&mut result.items, &items);
            if let Some(g) = gold {
                assert(g == gold_left(start[i as int].1));
                result.gold = result.gold + g;
            }
            let ghost before_ids = start.take(i as int).filter(within(in_range@));
            result.fully_looted.push(entity);
            proof {
                assert(before_ids.push(start[i as int]).map_values(|e: (u64, LootWindow)| e.0)
                    =~= before_ids.map_values(|e: (u64, LootWindow)| e.0).push(entity));
            }
        }
        i = i + 1;
    }
    proof {
        assert(start.take(i as int) =~= start);
    }
    result
}

/// Creature type for gold drop scaling.
///
/// Ref: AzerothCore `creature_template.rank`.
#[derive(Debug, Clone, Copy, PartialEq, Eq, Structural)]
pub enum CreatureRank {
    /// Normal mob — baseline gold.
    Normal,
    /// Elite mob — 3x gold.
    Elite,
    /// Rare mob — 2x gold.
    Rare,
    /// Rare elite — 5x gold.
    RareElite,
    /// Boss — 10x gold.
    Boss,
}

} // verus!
