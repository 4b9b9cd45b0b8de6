//! Quest definitions (objectives, rewards, prerequisites) and per-player
//! quest progress: objective tracking, the quest log, resets and markers.
//!
//! Static quest data is loaded at startup; runtime progress lives on
//! the player.
//!
//! Ref: AzerothCore `QuestDef.h`, `quest_template` table.
use vstd::prelude::*;

verus! {

/// What a player must do to complete a quest.
#[derive(Debug, Clone, Copy, PartialEq, Eq, Structural)]
pub enum QuestObjective {
    /// Kill N creatures of a specific template.
    Kill { creature_id: u32, count: u16 },
    /// Collect N items.
    Collect { item_id: u32, count: u16 },
    /// Interact with a specific game object or NPC.
    Interact { target_id: u32 },
    /// Escort an NPC to a destination (scripted event).
    Escort { npc_id: u32 },
    /// Reach a location (x, y, z within radius). The four values are the
    /// IEEE-754 bit patterns (`f32::to_bits`) of the coordinates and radius
    /// in yards; quest logic carries them through without reading them.
    ReachLocation { x: u32, y: u32, z: u32, radius: u32 },
}

/// A reward granted on quest completion.
#[derive(Debug, Clone, Copy, PartialEq, Eq, Structural)]
pub enum QuestReward {
    /// XP reward (may be scaled by level).
    Xp(u32),
    /// Gold reward in copper.
    Gold(u32),
    /// A specific item (guaranteed).
    Item { item_id: u32, count: u16 },
    /// Reputation with a faction.
    Reputation { faction_id: u32, amount: i32 },
}

/// An item the player can choose from as a reward.
#[derive(Debug, Clone, Copy, PartialEq, Eq, Structural)]
pub struct QuestRewardChoice {
    pub item_id: u32,
    pub count: u16,
}

/// How often a quest can be repeated.
#[derive(Debug, Clone, Copy, PartialEq, Eq, Structural)]
pub enum QuestRepeat {
    /// One-time quest, cannot be repeated.
    OneTime,
    /// Resets daily (server time, typically 3 AM).
    Daily,
    /// Resets weekly (Tuesday for US, Wednesday for EU).
    Weekly,
}

/// Static quest definition.
///
/// Immutable data loaded at startup from the quest database.
/// Runtime state (accepted, in-progress, progress counts) lives on
/// the player entity.
///
/// Ref: AzerothCore `quest_template`.
#[derive(Debug, Clone, PartialEq)]
pub struct QuestData {
    /// Unique quest ID.
    pub id: u32,
    /// Quest title displayed in the log.
    pub title: String,
    /// Full description shown when accepting.
    pub description: String,
    /// Brief objective summary shown in the tracker.
    pub objective_text: String,
    /// What must be done to complete the quest.
    pub objectives: Vec<QuestObjective>,
    /// Guaranteed rewards on completion.
    pub rewards: Vec<QuestReward>,
    /// Items the player chooses one from (0 = no choice).
    pub reward_choices: Vec<QuestRewardChoice>,
    /// Minimum player level to accept.
    pub required_level: u8,
    /// Suggested level (for difficulty display).
    pub suggested_level: u8,
    /// Quest IDs that must be completed before this one is available.
    pub prerequisites: Vec<u32>,
    /// NPC ID that offers this quest.
    pub quest_giver: u32,
    /// NPC ID to turn in the quest (0 = same as giver).
    pub turn_in_npc: u32,
    /// Quest ID automatically offered on turn-in (chain continuation). 0 = none.
    pub next_quest_id: u32,
    /// Exclusive group ID. Completing any quest in a group blocks the others.
    /// 0 = no exclusive group.
    pub exclusive_group: u32,
    /// How often this quest can be repeated.
    pub repeat: QuestRepeat,
}

/// Every prerequisite is among the completed quests.
pub open spec fn prerequisites_met_spec(prerequisites: Seq<u32>, completed: Seq<u32>) -> bool {
    forall|i: int| 0 <= i < prerequisites.len() ==> completed.contains(#[trigger] prerequisites[i])
}

/// Another quest of the same (non-zero) exclusive group was completed.
pub open spec fn excluded_spec(
    id: u32,
    group: u32,
    completed: Seq<u32>,
    all_quests: Seq<QuestData>,
) -> bool {
    group != 0 && exists|i: int|
        0 <= i < all_quests.len() && (#[trigger] all_quests[i]).id != id
            && all_quests[i].exclusive_group == group && completed.contains(all_quests[i].id)
}

/// Level, prerequisites and exclusive group all allow accepting.
pub open spec fn can_accept_spec(
    q: QuestData,
    player_level: u8,
    completed: Seq<u32>,
    all_quests: Seq<QuestData>,
) -> bool {
    &&& player_level >= q.required_level
    &&& prerequisites_met_spec(q.prerequisites@, completed)
    &&& !excluded_spec(q.id, q.exclusive_group, completed, all_quests)
}

pub(crate) fn contains_id(ids: &[u32], id: u32) -> (b: bool)
    ensures
        b == ids@.contains(id),
{
    let mut i: usize = 0;
    while i < ids.len()
        invariant
            i <= ids@.len(),
            forall|k: int| 0 <= k < i ==> ids@[k] != id,
        decreases ids.len() - i,
    {
        if ids[i] == id {
            return true;
        }
        i = i + 1;
    }
    false
}

impl QuestData {
    /// Whether a player meets the level requirement.
    pub fn meets_level_req(&self, player_level: u8) -> (b: bool)
        ensures
            b == (player_level >= self.required_level),
    {
        player_level >= self.required_level
    }

    /// Whether all prerequisite quests are completed.
    pub fn prerequisites_met(&self, completed_quests: &[u32]) -> (b: bool)
        ensures
            b == prerequisites_met_spec(self.prerequisites@, completed_quests@),
    {
        let mut i: usize = 0;
        while i < self.prerequisites.len()
            invariant
                i <= self.prerequisites@.len(),
                forall|k: int|
                    0 <= k < i ==> completed_quests@.contains(#[trigger] self.prerequisites@[k]),
            decreases self.prerequisites.len() - i,
        {
            if !contains_id(completed_quests, self.prerequisites[i]) {
                return false;
            }
            i = i + 1;
        }
        true
    }

    /// Whether this quest is blocked by an exclusive group member being completed.
    pub fn excluded_by(&self, completed_quests: &[u32], all_quests: &[QuestData]) -> (b: bool)
        ensures
            b == excluded_spec(self.id, self.exclusive_group, completed_quests@, all_quests@),
    {
        if self.exclusive_group == 0 {
            return false;
        }
        let mut i: usize = 0;
        while i < all_quests.len()
            invariant
                i <= all_quests@.len(),
                self.exclusive_group != 0,
                forall|k: int|
                    0 <= k < i ==> !((#[trigger] all_quests@[k]).id != self.id
                        && all_quests@[k].exclusive_group == self.exclusive_group
                        && completed_quests@.contains(all_quests@[k].id)),
            decreases all_quests.len() - i,
        {
            let q = &all_quests[i];
            if q.id != self.id && q.exclusive_group == self.exclusive_group && contains_id(
                completed_quests,
                q.id,
            ) {
                return true;
            }
            i = i + 1;
        }
        false
    }

    /// Whether a player can accept this quest (level + prereqs + not excluded).
    pub fn can_accept(&self, player_level: u8, completed_quests: &[u32], all_quests: &[QuestData]) -> (b:
        bool)
        ensures
            b == can_accept_spec(*self, player_level, completed_quests@, all_quests@),
    {
        self.meets_level_req(player_level) && self.prerequisites_met(completed_quests)
            && !self.excluded_by(completed_quests, all_quests)
    }
}

// --- Objective progress tracking ---

/// Progress on a single quest objective.
#[derive(Debug, Clone, Copy, PartialEq, Eq, Structural)]
pub enum ObjectiveProgress {
    /// Kill objective: current / required count.
    Kill { current: u16, required: u16 },
    /// Collect objective: current / required count.
    Collect { current: u16, required: u16 },
    /// Interact: done or not.
    Interact { done: bool },
    /// Escort: done or not.
    Escort { done: bool },
    /// Reach location: done or not.
    ReachLocation { done: bool },
}

/// Fresh progress for an objective: nothing counted, nothing done.
pub open spec fn initial_progress(obj: QuestObjective) -> ObjectiveProgress {
    match obj {
        QuestObjective::Kill { count, .. } => ObjectiveProgress::Kill { current: 0, required: count },
        QuestObjective::Collect { count, .. } => ObjectiveProgress::Collect {
            current: 0,
            required: count,
        },
        QuestObjective::Interact { .. } => ObjectiveProgress::Interact { done: false },
        QuestObjective::Escort { .. } => ObjectiveProgress::Escort { done: false },
        QuestObjective::ReachLocation { .. } => ObjectiveProgress::ReachLocation { done: false },
    }
}

/// The same objective with its progress cleared.
pub open spec fn reset_progress(p: ObjectiveProgress) -> ObjectiveProgress {
    match p {
        ObjectiveProgress::Kill { required, .. } => ObjectiveProgress::Kill { current: 0, required },
        ObjectiveProgress::Collect { required, .. } => ObjectiveProgress::Collect {
            current: 0,
            required,
        },
        ObjectiveProgress::Interact { .. } => ObjectiveProgress::Interact { done: false },
        ObjectiveProgress::Escort { .. } => ObjectiveProgress::Escort { done: false },
        ObjectiveProgress::ReachLocation { .. } => ObjectiveProgress::ReachLocation { done: false },
    }
}

/// Counted objectives reached their requirement; the others are done.
pub open spec fn objective_complete(p: ObjectiveProgress) -> bool {
    match p {
        ObjectiveProgress::Kill { current, required } => current >= required,
        ObjectiveProgress::Collect { current, required } => current >= required,
        ObjectiveProgress::Interact { done } => done,
        ObjectiveProgress::Escort { done } => done,
        ObjectiveProgress::ReachLocation { done } => done,
    }
}

impl ObjectiveProgress {
    /// Create initial progress from a quest objective definition.
    pub fn from_objective(obj: &QuestObjective) -> (p: Self)
        ensures
            p == initial_progress(*obj),
    {
        match *obj {
            QuestObjective::Kill { count, .. } => ObjectiveProgress::Kill { current: 0, required: count },
            QuestObjective::Collect { count, .. } => ObjectiveProgress::Collect {
                current: 0,
                required: count,
            },
            QuestObjective::Interact { .. } => ObjectiveProgress::Interact { done: false },
            QuestObjective::Escort { .. } => ObjectiveProgress::Escort { done: false },
            QuestObjective::ReachLocation { .. } => ObjectiveProgress::ReachLocation { done: false },
        }
    }

    /// Whether this objective is complete.
    pub fn is_complete(&self) -> (b: bool)
        ensures
            b == objective_complete(*self),
    {
        match *self {
            ObjectiveProgress::Kill { current, required } => current >= required,
            ObjectiveProgress::Collect { current, required } => current >= required,
            ObjectiveProgress::Interact { done } => done,
            ObjectiveProgress::Escort { done } => done,
            ObjectiveProgress::ReachLocation { done } => done,
        }
    }

    /// Record a kill of a creature. Returns `true` if the count changed:
    /// a kill objective for that creature that is not yet full goes up by one.
    pub fn record_kill(&mut self, creature_id: u32, obj: &QuestObjective) -> (changed: bool)
        ensures
            changed == (*old(self) matches ObjectiveProgress::Kill { current, required }
                && obj matches QuestObjective::Kill { creature_id: cid, .. } && cid == creature_id
                && current < required),
            changed ==> (*old(self) matches ObjectiveProgress::Kill { current, required }
                && *final(self) == ObjectiveProgress::Kill { current: (current + 1) as u16, required }),
            !changed ==> *final(self) == *old(self),
    {
        match (*self, *obj) {
            (
                ObjectiveProgress::Kill { current, required },
                QuestObjective::Kill { creature_id: cid, .. },
            ) => {
                if creature_id == cid && current < required {
                    *self = ObjectiveProgress::Kill { current: current + 1, required };
                    return true;
                }
                false
            },
            _ => false,
        }
    }

    /// Record collecting an item. Returns `true` if the count changed:
    /// a collect objective for that item that is not yet full goes up by
    /// `count`, capped at the requirement.
    pub fn record_collect(&mut self, item_id: u32, count: u16, obj: &QuestObjective) -> (changed: bool)
        requires
            *old(self) matches ObjectiveProgress::Collect { current, required } ==> (
            obj matches QuestObjective::Collect { item_id: iid, .. } ==> (iid == item_id && current
                < required ==> current + count <= u16::MAX)),
        ensures
            changed == (*old(self) matches ObjectiveProgress::Collect { current, required }
                && obj matches QuestObjective::Collect { item_id: iid, .. } && iid == item_id
                && current < required),
            changed ==> (*old(self) matches ObjectiveProgress::Collect { current, required }
                && *final(self) == ObjectiveProgress::Collect {
                current: (if current + count < required {
                    current + count
                } else {
                    required as int
                }) as u16,
                required,
            }),
            !changed ==> *final(self) == *old(self),
    {
        match (*self, *obj) {
            (
                ObjectiveProgress::Collect { current, required },
                QuestObjective::Collect { item_id: iid, .. },
            ) => {
                if item_id == iid && current < required {
                    let sum = current + count;
                    let capped = if sum < required {
                        sum
                    } else {
                        required
                    };
                    *self = ObjectiveProgress::Collect { current: capped, required };
                    return true;
                }
                false
            },
            _ => false,
        }
    }

    /// Mark an interact/escort/reach objective as done; counted objectives
    /// are left as they are.
    pub fn mark_done(&mut self)
        ensures
            *final(self) == match *old(self) {
                ObjectiveProgress::Interact { .. } => ObjectiveProgress::Interact { done: true },
                ObjectiveProgress::Escort { .. } => ObjectiveProgress::Escort { done: true },
                ObjectiveProgress::ReachLocation { .. } => ObjectiveProgress::ReachLocation {
                    done: true,
                },
                other => other,
            },
    {
        match *self {
            ObjectiveProgress::Interact { .. } => {
                *self = ObjectiveProgress::Interact { done: true };
            },
            ObjectiveProgress::Escort { .. } => {
                *self = ObjectiveProgress::Escort { done: true };
            },
            ObjectiveProgress::ReachLocation { .. } => {
                *self = ObjectiveProgress::ReachLocation { done: true };
            },
            _ => {},
        }
    }
}

/// Quest lifecycle state.
///
/// ```text
/// Available → Accepted → InProgress → Complete → TurnedIn
///                ↑______________|
///          (objectives not yet done stay InProgress)
/// ```
#[derive(Debug, Clone, Copy, PartialEq, Eq, Structural)]
pub enum QuestState {
    /// Quest is available but not yet accepted.
    Available,
    /// Quest was just accepted (transitions to InProgress on first tick).
    Accepted,
    /// Objectives are being worked on.
    InProgress,
    /// All objectives complete, ready to turn in.
    Complete,
    /// Quest has been turned in and rewards claimed.
    TurnedIn,
}

/// Per-quest progress for a player.
#[derive(Debug, Clone, PartialEq)]
pub struct QuestProgress {
    pub quest_id: u32,
    pub state: QuestState,
    pub objectives: Vec<ObjectiveProgress>,
}

/// Every objective in the list is complete.
pub open spec fn all_complete(objectives: Seq<ObjectiveProgress>) -> bool {
    forall|i: int| 0 <= i < objectives.len() ==> objective_complete(#[trigger] objectives[i])
}

/// The state `update_state` moves to from `state`.
pub open spec fn next_state(state: QuestState, objectives: Seq<ObjectiveProgress>) -> QuestState {
    match state {
        QuestState::Accepted => if all_complete(objectives) {
            QuestState::Complete
        } else {
            QuestState::InProgress
        },
        QuestState::InProgress => if all_complete(objectives) {
            QuestState::Complete
        } else {
            QuestState::InProgress
        },
        other => other,
    }
}

impl QuestProgress {
    /// Create initial progress when accepting a quest.
    pub fn new(quest: &QuestData) -> (p: Self)
        ensures
            p.quest_id == quest.id,
            p.state == QuestState::Accepted,
            p.objectives@ == quest.objectives@.map_values(|o: QuestObjective| initial_progress(o)),
    {
        let mut objectives: Vec<ObjectiveProgress> = Vec::new();
        let mut i: usize = 0;
        while i < quest.objectives.len()
            invariant
                i <= quest.objectives@.len(),
                objectives@ == quest.objectives@.take(i as int).map_values(
                    |o: QuestObjective| initial_progress(o),
                ),
            decreases quest.objectives.len() - i,
        {
            let o = ObjectiveProgress::from_objective(&quest.objectives[i]);
            objectives.push(o);
            proof {
                assert(quest.objectives@.take(i + 1).map_values(|o: QuestObjective| initial_progress(o))
                    =~= quest.objectives@.take(i as int).map_values(
                    |o: QuestObjective| initial_progress(o),
                ).push(o));
            }
            i = i + 1;
        }
        proof {
            assert(quest.objectives@.take(i as int) =~= quest.objectives@);
        }
        QuestProgress { quest_id: quest.id, state: QuestState::Accepted, objectives }
    }

    /// Whether all objectives are complete.
    pub fn objectives_complete(&self) -> (b: bool)
        ensures
            b == all_complete(self.objectives@),
    {
        let mut i: usize = 0;
        while i < self.objectives.len()
            invariant
                i <= self.objectives@.len(),
                forall|k: int| 0 <= k < i ==> objective_complete(#[trigger] self.objectives@[k]),
            decreases self.objectives.len() - i,
        {
            if !self.objectives[i].is_complete() {
                return false;
            }
            i = i + 1;
        }
        true
    }

    /// Update the state based on objective progress.
    ///
    /// Call after any objective update. Transitions:
    /// - Accepted → InProgress (always, on first update)
    /// - InProgress → Complete (when all objectives done)
    pub fn update_state(&mut self)
        ensures
            final(self).quest_id == old(self).quest_id,
            final(self).objectives@ == old(self).objectives@,
            final(self).state == next_state(old(self).state, old(self).objectives@),
    {
        match self.state {
            QuestState::Accepted => {
                self.state = if self.objectives_complete() {
                    QuestState::Complete
                } else {
                    QuestState::InProgress
                };
            },
            QuestState::InProgress => {
                if self.objectives_complete() {
                    self.state = QuestState::Complete;
                }
            },
            _ => {},
        }
    }

    /// Turn in the quest. Returns `true` if successful (was Complete).
    pub fn turn_in(&mut self) -> (ok: bool)
        ensures
            ok == (old(self).state == QuestState::Complete),
            final(self).quest_id == old(self).quest_id,
            final(self).objectives@ == old(self).objectives@,
            final(self).state == (if ok {
                QuestState::TurnedIn
            } else {
                old(self).state
            }),
    {
        if self.state == QuestState::Complete {
            self.state = QuestState::TurnedIn;
            true
        } else {
            false
        }
    }

    /// Abandon the quest, resetting it to Available with all progress cleared.
    pub fn abandon(&mut self)
        ensures
            final(self).quest_id == old(self).quest_id,
            final(self).state == QuestState::Available,
            final(self).objectives@ == old(self).objectives@.map_values(
                |p: ObjectiveProgress| reset_progress(p),
            ),
    {
        self.state = QuestState::Available;
        let mut i: usize = 0;
        while i < self.objectives.len()
            invariant
                i <= self.objectives@.len(),
                self.objectives@.len() == old(self).objectives@.len(),
                self.quest_id == old(self).quest_id,
                self.state == QuestState::Available,
                forall|k: int|
                    0 <= k < i ==> #[trigger] self.objectives@[k] == reset_progress(
                        old(self).objectives@[k],
                    ),
                forall|k: int| i <= k < self.objectives@.len() ==> #[trigger] self.objectives@[k]
                    == old(self).objectives@[k],
            decreases self.objectives.len() - i,
        {
            let cleared = match self.objectives[i] {
                ObjectiveProgress::Kill { required, .. } => ObjectiveProgress::Kill {
                    current: 0,
                    required,
                },
                ObjectiveProgress::Collect { required, .. } => ObjectiveProgress::Collect {
                    current: 0,
                    required,
                },
                ObjectiveProgress::Interact { .. } => ObjectiveProgress::Interact { done: false },
                ObjectiveProgress::Escort { .. } => ObjectiveProgress::Escort { done: false },
                ObjectiveProgress::ReachLocation { .. } => ObjectiveProgress::ReachLocation {
                    done: false,
                },
            };
            self.objectives.set(i, cleared);
            i = i + 1;
        }
        proof {
            assert(self.objectives@ =~= old(self).objectives@.map_values(
                |p: ObjectiveProgress| reset_progress(p),
            ));
        }
    }
}

// --- Reward claiming ---

/// Collected rewards from a quest turn-in.
///
/// The server uses this to apply XP, gold, items, and reputation to the player.
#[derive(Debug, Clone, PartialEq)]
pub struct ClaimedRewards {
    pub xp: u32,
    pub gold: u32,
    pub items: Vec<(u32, u16)>,
    pub reputation: Vec<(u32, i32)>,
}

impl Default for ClaimedRewards {
    fn default() -> (r: Self)
        ensures
            r.xp == 0,
            r.gold == 0,
            r.items@.len() == 0,
            r.reputation@.len() == 0,
    {
        ClaimedRewards { xp: 0, gold: 0, items: Vec::new(), reputation: Vec::new() }
    }
}

/// Total XP of the rewards.
pub open spec fn xp_total(rewards: Seq<QuestReward>) -> int
    decreases rewards.len(),
{
    if rewards.len() == 0 {
        0
    } else {
        xp_total(rewards.drop_last()) + match rewards.last() {
            QuestReward::Xp(a) => a as int,
            _ => 0,
        }
    }
}

/// Total gold of the rewards.
pub open spec fn gold_total(rewards: Seq<QuestReward>) -> int
    decreases rewards.len(),
{
    if rewards.len() == 0 {
        0
    } else {
        gold_total(rewards.drop_last()) + match rewards.last() {
            QuestReward::Gold(a) => a as int,
            _ => 0,
        }
    }
}

/// The guaranteed item rewards, in order.
pub open spec fn item_rewards(rewards: Seq<QuestReward>) -> Seq<(u32, u16)>
    decreases rewards.len(),
{
    if rewards.len() == 0 {
        Seq::empty()
    } else {
        let prev = item_rewards(rewards.drop_last());
        match rewards.last() {
            QuestReward::Item { item_id, count } => prev.push((item_id, count)),
            _ => prev,
        }
    }
}

/// The reputation rewards, in order.
pub open spec fn reputation_rewards(rewards: Seq<QuestReward>) -> Seq<(u32, i32)>
    decreases rewards.len(),
{
    if rewards.len() == 0 {
        Seq::empty()
    } else {
        let prev = reputation_rewards(rewards.drop_last());
        match rewards.last() {
            QuestReward::Reputation { faction_id, amount } => prev.push((faction_id, amount)),
            _ => prev,
        }
    }
}

/// A choice is required when the quest offers any, and must name one of them.
pub open spec fn choice_valid(choices: Seq<QuestRewardChoice>, choice_index: Option<usize>) -> bool {
    choices.len() == 0 || (choice_index matches Some(i) && i < choices.len())
}

proof fn lemma_totals_prefix(rewards: Seq<QuestReward>, i: int)
    requires
        0 <= i <= rewards.len(),
    ensures
        0 <= xp_total(rewards.take(i)) <= xp_total(rewards),
        0 <= gold_total(rewards.take(i)) <= gold_total(rewards),
    decreases rewards.len(),
{
    if rewards.len() > 0 {
        if i == rewards.len() {
            assert(rewards.take(i) =~= rewards);
            lemma_totals_prefix(rewards.drop_last(), i - 1);
            assert(rewards.drop_last().take(i - 1) =~= rewards.drop_last());
        } else {
            lemma_totals_prefix(rewards.drop_last(), i);
            assert(rewards.drop_last().take(i) =~= rewards.take(i));
        }
    }
}

/// Process quest rewards on turn-in.
///
/// `choice_index` selects which reward choice the player picks (if any).
/// Returns `None` if the choice index is invalid.
pub fn claim_rewards(quest: &QuestData, choice_index: Option<usize>) -> (r: Option<ClaimedRewards>)
    requires
        xp_total(quest.rewards@) <= u32::MAX,
        gold_total(quest.rewards@) <= u32::MAX,
    ensures
        r is Some <==> choice_valid(quest.reward_choices@, choice_index),
        r matches Some(c) ==> {
            &&& c.xp == xp_total(quest.rewards@)
            &&& c.gold == gold_total(quest.rewards@)
            &&& c.reputation@ == reputation_rewards(quest.rewards@)
            &&& c.items@ == item_rewards(quest.rewards@) + match choice_index {
                Some(i) => if i < quest.reward_choices@.len() {
                    seq![(quest.reward_choices@[i as int].item_id, quest.reward_choices@[i as int].count)]
                } else {
                    Seq::empty()
                },
                None => Seq::empty(),
            }
        },
{
    if quest.reward_choices.len() > 0 {
        match choice_index {
            None => {
                return None;
            },
            Some(idx) => {
                if idx >= quest.reward_choices.len() {
                    return None;
                }
            },
        }
    }
    let mut result = ClaimedRewards::default();
    let mut i: usize = 0;
    while i < quest.rewards.len()
        invariant
            i <= quest.rewards@.len(),
            xp_total(quest.rewards@) <= u32::MAX,
            gold_total(quest.rewards@) <= u32::MAX,
            result.xp == xp_total(quest.rewards@.take(i as int)),
            result.gold == gold_total(quest.rewards@.take(i as int)),
            result.items@ == item_rewards(quest.rewards@.take(i as int)),
            result.reputation@ == reputation_rewards(quest.rewards@.take(i as int)),
        decreases quest.rewards.len() - i,
    {
        proof {
            let t = quest.rewards@.take(i + 1);
            assert(t.drop_last() =~= quest.rewards@.take(i as int));
            assert(t.last() == quest.rewards@[i as int]);
            lemma_totals_prefix(quest.rewards@, i + 1);
        }
        match quest.rewards[i] {
            QuestReward::Xp(amount) => {
                result.xp = result.xp + amount;
            },
            QuestReward::Gold(amount) => {
                result.gold = result.gold + amount;
            },
            QuestReward::Item { item_id, count } => {
                result.items.push((item_id, count));
            },
            QuestReward::Reputation { faction_id, amount } => {
                result.reputation.push((faction_id, amount));
            },
        }
        i = i + 1;
    }
    proof {
        assert(quest.rewards@.take(i as int) =~= quest.rewards@);
    }
    if let Some(idx) = choice_index {
        if idx < quest.reward_choices.len() {
            let choice = quest.reward_choices[idx];
            let ghost before = result.items@;
            result.items.push((choice.item_id, choice.count));
            proof {
                assert(result.items@ =~= before + seq![(choice.item_id, choice.count)]);
            }
        } else {
            proof {
                assert(result.items@ =~= result.items@ + Seq::<(u32, u16)>::empty());
            }
        }
    } else {
        proof {
            assert(result.items@ =~= result.items@ + Seq::<(u32, u16)>::empty());
        }
    }
    Some(result)
}

// --- Per-player quest log ---

/// Maximum number of active (non-turned-in) quests a player can hold.
const MAX_ACTIVE_QUESTS: usize = 25;

/// Seconds in a day (24h).
const SECONDS_PER_DAY: u64 = 86400;

/// Seconds in a week (7d).
const SECONDS_PER_WEEK: u64 = 604800;

/// Timestamp of when a repeatable quest was last completed.
#[derive(Debug, Clone, Copy, PartialEq, Eq, Structural)]
pub struct QuestCooldown {
    pub quest_id: u32,
    pub repeat: QuestRepeat,
    /// Server timestamp (seconds since epoch) when the quest was completed.
    pub completed_at: u64,
}

/// Length of a reset period in seconds (none for one-time quests).
pub open spec fn period_of(repeat: QuestRepeat) -> int {
    match repeat {
        QuestRepeat::OneTime => 0,
        QuestRepeat::Daily => 86400,
        QuestRepeat::Weekly => 604800,
    }
}

/// The first period boundary after completion; never for one-time quests.
pub open spec fn next_reset_spec(cd: QuestCooldown) -> int {
    match cd.repeat {
        QuestRepeat::OneTime => u64::MAX as int,
        _ => (cd.completed_at / (period_of(cd.repeat) as u64) + 1) * period_of(cd.repeat),
    }
}

/// Whether the cooldown is over at `now`.
pub open spec fn reset_at(cd: QuestCooldown, now: u64) -> bool {
    cd.repeat != QuestRepeat::OneTime && now >= next_reset_spec(cd)
}

/// The next reset time fits in a timestamp.
pub open spec fn reset_fits(cd: QuestCooldown) -> bool {
    next_reset_spec(cd) <= u64::MAX
}

impl QuestCooldown {
    /// Whether this quest is available again given the current server time.
    pub fn is_reset(&self, now: u64) -> (b: bool)
        requires
            reset_fits(*self),
        ensures
            b == reset_at(*self, now),
    {
        match self.repeat {
            QuestRepeat::OneTime => false,
            QuestRepeat::Daily => now >= self.next_reset(),
            QuestRepeat::Weekly => now >= self.next_reset(),
        }
    }

    /// Timestamp of the next reset.
    pub fn next_reset(&self) -> (t: u64)
        requires
            reset_fits(*self),
        ensures
            t == next_reset_spec(*self),
    {
        let period: u64 = match self.repeat {
            QuestRepeat::OneTime => {
                return u64::MAX;
            },
            QuestRepeat::Daily => SECONDS_PER_DAY,
            QuestRepeat::Weekly => SECONDS_PER_WEEK,
        };
        let periods_elapsed = self.completed_at / period;
        (periods_elapsed + 1) * period
    }
}

/// Some active quest has this id.
pub open spec fn has_quest_spec(active: Seq<QuestProgress>, quest_id: u32) -> bool {
    exists|i: int| 0 <= i < active.len() && #[trigger] active[i].quest_id == quest_id
}

/// Position of the first active quest with this id.
pub open spec fn quest_index(active: Seq<QuestProgress>, quest_id: u32) -> int {
    choose|k: int|
        0 <= k < active.len() && active[k].quest_id == quest_id && forall|m: int|
            0 <= m < k ==> active[m].quest_id != quest_id
}

/// Some cooldown is held for this quest.
pub open spec fn on_cooldown_spec(cooldowns: Seq<QuestCooldown>, quest_id: u32) -> bool {
    exists|i: int| 0 <= i < cooldowns.len() && #[trigger] cooldowns[i].quest_id == quest_id
}

/// Active quests other than `quest_id`.
pub open spec fn other_quest(quest_id: u32) -> spec_fn(QuestProgress) -> bool {
    |q: QuestProgress| q.quest_id != quest_id
}

/// Cooldowns of quests other than `quest_id`.
pub open spec fn other_cooldown(quest_id: u32) -> spec_fn(QuestCooldown) -> bool {
    |c: QuestCooldown| c.quest_id != quest_id
}

/// Cooldowns still running at `now`.
pub open spec fn still_cooling(now: u64) -> spec_fn(QuestCooldown) -> bool {
    |c: QuestCooldown| !reset_at(c, now)
}

/// Cooldowns over at `now`.
pub open spec fn done_cooling(now: u64) -> spec_fn(QuestCooldown) -> bool {
    |c: QuestCooldown| reset_at(c, now)
}

/// Completed ids not among `ids`.
pub open spec fn not_among(ids: Seq<u32>) -> spec_fn(u32) -> bool {
    |q: u32| !ids.contains(q)
}

pub proof fn lemma_quest_index(active: Seq<QuestProgress>, quest_id: u32)
    requires
        has_quest_spec(active, quest_id),
    ensures
        0 <= quest_index(active, quest_id) < active.len(),
        active[quest_index(active, quest_id)].quest_id == quest_id,
        forall|m: int| 0 <= m < quest_index(active, quest_id) ==> active[m].quest_id != quest_id,
    decreases active.len(),
{
    let p = active.drop_last();
    if has_quest_spec(p, quest_id) {
        lemma_quest_index(p, quest_id);
        let k = quest_index(p, quest_id);
        assert(active[k] == p[k]);
        assert(forall|m: int| 0 <= m < k ==> active[m] == p[m]);
    } else {
        let k = active.len() - 1;
        assert(active[k].quest_id == quest_id) by {
            let w = choose|w: int| 0 <= w < active.len() && #[trigger] active[w].quest_id == quest_id;
            if w < k {
                assert(p[w] == active[w]);
            }
        }
        assert forall|m: int| 0 <= m < k implies active[m].quest_id != quest_id by {
            assert(p[m] == active[m]);
        }
    }
}

/// Per-player quest log tracking all active and completed quests.
#[derive(Debug, Clone, PartialEq)]
pub struct QuestLog {
    /// Active quests (Accepted/InProgress/Complete — not yet turned in).
    pub active: Vec<QuestProgress>,
    /// IDs of quests that have been turned in (for prerequisite checks).
    pub completed: Vec<u32>,
    /// Cooldowns for repeatable quests.
    pub cooldowns: Vec<QuestCooldown>,
}

impl Default for QuestLog {
    fn default() -> (r: Self)
        ensures
            r.active@.len() == 0,
            r.completed@.len() == 0,
            r.cooldowns@.len() == 0,
    {
        QuestLog { active: Vec::new(), completed: Vec::new(), cooldowns: Vec::new() }
    }
}

fn remove_quest(active: &mut Vec<QuestProgress>, quest_id: u32)
    ensures
        final(active)@ == old(active)@.filter(other_quest(quest_id)),
{
    let mut taken: Vec<QuestProgress> = Vec::new();
    std::mem::swap(&mut taken, active);
    let ghost all = taken@;
    proof {
        assert(taken@.len() == taken.len());
    }
    let mut kept: Vec<QuestProgress> = Vec::new();
    let mut idx: usize = 0;
    while taken.len() > 0
        invariant
            idx <= all.len(),
            all.len() <= usize::MAX,
            taken@ == all.subrange(idx as int, all.len() as int),
            kept@ == all.take(idx as int).filter(other_quest(quest_id)),
        decreases taken.len(),
    {
        proof {
            reveal(Seq::filter);
        }
        let q = taken.remove(0);
        assert(all.take(idx + 1).drop_last() =~= all.take(idx as int));
        assert(all.take(idx + 1).last() == q);
        if q.quest_id != quest_id {
            kept.push(q);
        }
        idx = idx + 1;
        assert(taken@ =~= all.subrange(idx as int, all.len() as int));
    }
    assert(all.take(idx as int) =~= all);
    *active = kept;
}

fn remove_cooldown(cooldowns: &mut Vec<QuestCooldown>, quest_id: u32)
    ensures
        final(cooldowns)@ == old(cooldowns)@.filter(other_cooldown(quest_id)),
{
    let mut kept: Vec<QuestCooldown> = Vec::new();
    let mut i: usize = 0;
    while i < cooldowns.len()
        invariant
            i <= cooldowns@.len(),
            cooldowns@ == old(cooldowns)@,
            kept@ == cooldowns@.take(i as int).filter(other_cooldown(quest_id)),
        decreases cooldowns.len() - i,
    {
        proof {
            reveal(Seq::filter);
            assert(cooldowns@.take(i + 1).drop_last() =~= cooldowns@.take(i as int));
            assert(cooldowns@.take(i + 1).last() == cooldowns@[i as int]);
        }
        let c = cooldowns[i];
        if c.quest_id != quest_id {
            kept.push(c);
        }
        i = i + 1;
    }
    proof {
        assert(cooldowns@.take(i as int) =~= cooldowns@);
    }
    *cooldowns = kept;
}

impl QuestLog {
    fn find(&self, quest_id: u32) -> (r: Option<usize>)
        ensures
            r is None <==> !has_quest_spec(self.active@, quest_id),
            r matches Some(i) ==> i == quest_index(self.active@, quest_id) && i < self.active@.len()
                && self.active@[i as int].quest_id == quest_id,
    {
        let mut i: usize = 0;
        while i < self.active.len()
            invariant
                i <= self.active@.len(),
                forall|k: int| 0 <= k < i ==> (#[trigger] self.active@[k]).quest_id != quest_id,
            decreases self.active.len() - i,
        {
            if self.active[i].quest_id == quest_id {
                proof {
                    lemma_quest_index(self.active@, quest_id);
                    let fi = quest_index(self.active@, quest_id);
                    if fi < i {
                        assert(self.active@[fi].quest_id != quest_id);
                    } else if fi > i {
                        assert(self.active@[i as int].quest_id == quest_id);
                    }
                }
                return Some(i);
            }
            i = i + 1;
        }
        None
    }

    /// Accept a quest. Returns `false` if the log is full, already active, or on cooldown.
    pub fn accept(&mut self, quest: &QuestData) -> (ok: bool)
        ensures
            ok == (old(self).active@.len() < 25 && !has_quest_spec(
                old(self).active@,
                quest.id,
            ) && !on_cooldown_spec(old(self).cooldowns@, quest.id)),
            final(self).completed@ == old(self).completed@,
            final(self).cooldowns@ == old(self).cooldowns@,
            !ok ==> final(self).active@ == old(self).active@,
            ok ==> {
                let p = final(self).active@.last();
                &&& final(self).active@.len() == old(self).active@.len() + 1
                &&& final(self).active@.drop_last() == old(self).active@
                &&& p.quest_id == quest.id
                &&& p.state == QuestState::Accepted
                &&& p.objectives@ == quest.objectives@.map_values(
                    |o: QuestObjective| initial_progress(o),
                )
            },
    {
        if self.active.len() >= MAX_ACTIVE_QUESTS {
            return false;
        }
        if self.has_quest(quest.id) {
            return false;
        }
        if self.is_on_cooldown(quest.id) {
            return false;
        }
        let p = QuestProgress::new(quest);
        self.active.push(p);
        proof {
            assert(self.active@.drop_last() =~= old(self).active@);
        }
        true
    }

    /// Whether a quest is currently in the active log.
    pub fn has_quest(&self, quest_id: u32) -> (b: bool)
        ensures
            b == has_quest_spec(self.active@, quest_id),
    {
        self.find(quest_id).is_some()
    }

    /// Whether a quest has been completed (turned in).
    pub fn is_completed(&self, quest_id: u32) -> (b: bool)
        ensures
            b == self.completed@.contains(quest_id),
    {
        contains_id(self.completed.as_slice(), quest_id)
    }

    /// Get mutable progress for an active quest (the first with that id).
    pub fn get_mut(&mut self, quest_id: u32) -> (r: Option<&mut QuestProgress>)
        ensures
            r is None <==> !has_quest_spec(old(self).active@, quest_id),
            r is None ==> *final(self) == *old(self),
            r matches Some(p) ==> {
                let k = quest_index(old(self).active@, quest_id);
                &&& *p == old(self).active@[k]
                &&& final(self).active@ == old(self).active@.update(k, *final(p))
                &&& final(self).completed == old(self).completed
                &&& final(self).cooldowns == old(self).cooldowns
            },
    {
        match self.find(quest_id) {
            Some(i) => Some(&mut self.active[i]),
            None => None,
        }
    }

    /// Get progress for an active quest (the first with that id).
    pub fn get(&self, quest_id: u32) -> (r: Option<&QuestProgress>)
        ensures
            r is None <==> !has_quest_spec(self.active@, quest_id),
            r matches Some(p) ==> *p == self.active@[quest_index(self.active@, quest_id)],
    {
        match self.find(quest_id) {
            Some(i) => Some(&self.active[i]),
            None => None,
        }
    }

    /// Whether a repeatable quest is on cooldown (not yet reset).
    pub fn is_on_cooldown(&self, quest_id: u32) -> (b: bool)
        ensures
            b == on_cooldown_spec(self.cooldowns@, quest_id),
    {
        // Cooldowns are only checked at accept time; actual reset is via process_resets
        let mut i: usize = 0;
        while i < self.cooldowns.len()
            invariant
                i <= self.cooldowns@.len(),
                forall|k: int| 0 <= k < i ==> (#[trigger] self.cooldowns@[k]).quest_id != quest_id,
            decreases self.cooldowns.len() - i,
        {
            if self.cooldowns[i].quest_id == quest_id {
                return true;
            }
            i = i + 1;
        }
        false
    }

    /// Turn in a quest: move from active to completed. Returns `false` if
    /// not ready (not active, or its first entry is not Complete). A
    /// repeatable quest gets a fresh cooldown starting `now`.
    pub fn turn_in(&mut self, quest_id: u32, quest: &QuestData, now: u64) -> (ok: bool)
        ensures
            ok == (has_quest_spec(old(self).active@, quest_id) && old(self).active@[quest_index(
                old(self).active@,
                quest_id,
            )].state == QuestState::Complete),
            !ok ==> *final(self) == *old(self),
            ok ==> {
                &&& final(self).active@ == old(self).active@.filter(other_quest(quest_id))
                &&& final(self).completed@ == old(self).completed@.push(quest_id)
                &&& final(self).cooldowns@ == if quest.repeat != QuestRepeat::OneTime {
                    old(self).cooldowns@.filter(other_cooldown(quest_id)).push(
                        QuestCooldown { quest_id, repeat: quest.repeat, completed_at: now },
                    )
                } else {
                    old(self).cooldowns@
                }
            },
    {
        let i = match self.find(quest_id) {
            Some(i) => i,
            None => {
                return false;
            },
        };
        if self.active[i].state != QuestState::Complete {
            return false;
        }
        self.completed.push(quest_id);
        remove_quest(&mut self.active, quest_id);
        // Record cooldown for repeatable quests
        if quest.repeat != QuestRepeat::OneTime {
            remove_cooldown(&mut self.cooldowns, quest_id);
            self.cooldowns.push(QuestCooldown { quest_id, repeat: quest.repeat, completed_at: now });
        }
        true
    }

    /// Process daily/weekly resets. Removes expired cooldowns and their
    /// completed entries so repeatable quests become available again.
    pub fn process_resets(&mut self, now: u64)
        requires
            forall|i: int| 0 <= i < old(self).cooldowns@.len() ==> reset_fits(#[trigger] old(self).cooldowns@[i]),
        ensures
            final(self).active@ == old(self).active@,
            final(self).cooldowns@ == old(self).cooldowns@.filter(still_cooling(now)),
            final(self).completed@ == old(self).completed@.filter(
                not_among(
                    old(self).cooldowns@.filter(done_cooling(now)).map_values(
                        |c: QuestCooldown| c.quest_id,
                    ),
                ),
            ),
    {
        let ghost cds = self.cooldowns@;
        let mut reset_ids: Vec<u32> = Vec::new();
        let mut kept: Vec<QuestCooldown> = Vec::new();
        let mut i: usize = 0;
        while i < self.cooldowns.len()
            invariant
                i <= cds.len(),
                self.cooldowns@ == cds,
                forall|k: int| 0 <= k < cds.len() ==> reset_fits(#[trigger] cds[k]),
                reset_ids@ == cds.take(i as int).filter(done_cooling(now)).map_values(
                    |c: QuestCooldown| c.quest_id,
                ),
                kept@ == cds.take(i as int).filter(still_cooling(now)),
            decreases self.cooldowns.len() - i,
        {
            proof {
                reveal(Seq::filter);
                assert(cds.take(i + 1).drop_last() =~= cds.take(i as int));
                assert(cds.take(i + 1).last() == cds[i as int]);
            }
            let c = self.cooldowns[i];
            if c.is_reset(now) {
                let ghost before = cds.take(i as int).filter(done_cooling(now));
                reset_ids.push(c.quest_id);
                proof {
                    assert(before.push(c).map_values(|c: QuestCooldown| c.quest_id) =~= before.map_values(
                        |c: QuestCooldown| c.quest_id,
                    ).push(c.quest_id));
                }
            } else {
                kept.push(c);
            }
            i = i + 1;
        }
        proof {
            assert(cds.take(i as int) =~= cds);
        }
        let mut done: Vec<u32> = Vec::new();
        let mut j: usize = 0;
        while j < self.completed.len()
            invariant
                j <= self.completed@.len(),
                self.completed@ == old(self).completed@,
                done@ == self.completed@.take(j as int).filter(not_among(reset_ids@)),
            decreases self.completed.len() - j,
        {
            proof {
                reveal(Seq::filter);
                assert(self.completed@.take(j + 1).drop_last() =~= self.completed@.take(j as int));
                assert(self.completed@.take(j + 1).last() == self.completed@[j as int]);
            }
            let q = self.completed[j];
            if !contains_id(reset_ids.as_slice(), q) {
                done.push(q);
            }
            j = j + 1;
        }
        proof {
            assert(self.completed@.take(j as int) =~= self.completed@);
        }
        self.completed = done;
        self.cooldowns = kept;
    }

    /// Abandon a quest, removing it from the active log.
    pub fn abandon(&mut self, quest_id: u32) -> (had: bool)
        ensures
            had == has_quest_spec(old(self).active@, quest_id),
            final(self).active@ == old(self).active@.filter(other_quest(quest_id)),
            final(self).completed@ == old(self).completed@,
            final(self).cooldowns@ == old(self).cooldowns@,
    {
        let had = self.has_quest(quest_id);
        remove_quest(&mut self.active, quest_id);
        had
    }

    /// Number of active quests.
    pub fn active_count(&self) -> (n: usize)
        ensures
            n == self.active@.len(),
    {
        self.active.len()
    }
}

// --- Quest giver markers ---

/// Visual marker shown above an NPC's head.
#[derive(Debug, Clone, Copy, PartialEq, Eq, Structural)]
pub enum QuestMarker {
    /// Yellow `!` — NPC has a quest available for the player.
    Available,
    /// Silver `!` — NPC has a quest the player can't accept yet (level too low).
    AvailableLowLevel,
    /// Yellow `?` — NPC can accept a completed quest turn-in.
    TurnIn,
    /// Silver `?` — NPC is the turn-in target but objectives aren't complete.
    TurnInIncomplete,
    /// No marker.
    NoMarker,
}

/// Marker priority: TurnIn > TurnInIncomplete > Available > AvailableLowLevel > NoMarker.
pub open spec fn marker_rank(m: QuestMarker) -> int {
    match m {
        QuestMarker::NoMarker => 0,
        QuestMarker::AvailableLowLevel => 1,
        QuestMarker::Available => 2,
        QuestMarker::TurnInIncomplete => 3,
        QuestMarker::TurnIn => 4,
    }
}

/// The higher-priority of two markers (the first on a tie).
pub open spec fn higher_marker(a: QuestMarker, b: QuestMarker) -> QuestMarker {
    if marker_rank(b) > marker_rank(a) {
        b
    } else {
        a
    }
}

/// The NPC that takes a quest back: the turn-in NPC, or the giver when none is set.
pub open spec fn turn_in_target(q: QuestData) -> u32 {
    if q.turn_in_npc == 0 {
        q.quest_giver
    } else {
        q.turn_in_npc
    }
}

/// What a quest shows on the NPC as a turn-in target.
#[verifier::opaque]
pub open spec fn turn_in_marker(q: QuestData, npc_id: u32, log: QuestLog) -> QuestMarker {
    if turn_in_target(q) == npc_id && has_quest_spec(log.active@, q.id) {
        match log.active@[quest_index(log.active@, q.id)].state {
            QuestState::Complete => QuestMarker::TurnIn,
            QuestState::InProgress => QuestMarker::TurnInIncomplete,
            QuestState::Accepted => QuestMarker::TurnInIncomplete,
            _ => QuestMarker::NoMarker,
        }
    } else {
        QuestMarker::NoMarker
    }
}

/// What a quest shows on the NPC as an offer.
#[verifier::opaque]
pub open spec fn offer_marker(
    q: QuestData,
    npc_id: u32,
    quests: Seq<QuestData>,
    log: QuestLog,
    player_level: u8,
) -> QuestMarker {
    if q.quest_giver == npc_id && !has_quest_spec(log.active@, q.id) && !log.completed@.contains(q.id) {
        if can_accept_spec(q, player_level, log.completed@, quests) {
            QuestMarker::Available
        } else if player_level < q.required_level && prerequisites_met_spec(
            q.prerequisites@,
            log.completed@,
        ) {
            QuestMarker::AvailableLowLevel
        } else {
            QuestMarker::NoMarker
        }
    } else {
        QuestMarker::NoMarker
    }
}

/// The highest-priority marker over the turn-in and offer markers of `shown`.
pub open spec fn best_marker(
    npc_id: u32,
    shown: Seq<QuestData>,
    quests: Seq<QuestData>,
    log: QuestLog,
    player_level: u8,
) -> QuestMarker
    decreases shown.len(),
{
    if shown.len() == 0 {
        QuestMarker::NoMarker
    } else {
        let q = shown.last();
        let prev = best_marker(npc_id, shown.drop_last(), quests, log, player_level);
        higher_marker(
            higher_marker(prev, turn_in_marker(q, npc_id, log)),
            offer_marker(q, npc_id, quests, log, player_level),
        )
    }
}

fn priority(m: QuestMarker) -> (p: u8)
    ensures
        p == marker_rank(m),
{
    match m {
        QuestMarker::NoMarker => 0,
        QuestMarker::AvailableLowLevel => 1,
        QuestMarker::Available => 2,
        QuestMarker::TurnInIncomplete => 3,
        QuestMarker::TurnIn => 4,
    }
}

fn higher_priority(a: QuestMarker, b: QuestMarker) -> (m: QuestMarker)
    ensures
        m == higher_marker(a, b),
{
    if priority(b) > priority(a) {
        b
    } else {
        a
    }
}

/// Check turn-in: this NPC accepts a quest the player has.
fn quest_turn_in_marker(quest: &QuestData, npc_id: u32, log: &QuestLog) -> (m: QuestMarker)
    ensures
        m == turn_in_marker(*quest, npc_id, *log),
{
    proof {
        reveal(turn_in_marker);
    }
    let turn_in_npc = if quest.turn_in_npc == 0 {
        quest.quest_giver
    } else {
        quest.turn_in_npc
    };
    if turn_in_npc == npc_id {
        if let Some(progress) = log.get(quest.id) {
            return match progress.state {
                QuestState::Complete => QuestMarker::TurnIn,
                QuestState::InProgress | QuestState::Accepted => QuestMarker::TurnInIncomplete,
                _ => QuestMarker::NoMarker,
            };
        }
    }
    QuestMarker::NoMarker
}

/// Check offer: this NPC offers a quest the player doesn't have.
fn quest_offer_marker(
    quest: &QuestData,
    npc_id: u32,
    quests: &[QuestData],
    log: &QuestLog,
    player_level: u8,
) -> (m: QuestMarker)
    ensures
        m == offer_marker(*quest, npc_id, quests@, *log, player_level),
{
    proof {
        reveal(offer_marker);
    }
    if quest.quest_giver == npc_id && !log.has_quest(quest.id) && !log.is_completed(quest.id) {
        if quest.can_accept(player_level, log.completed.as_slice(), quests) {
            QuestMarker::Available
        } else if !quest.meets_level_req(player_level) && quest.prerequisites_met(
            log.completed.as_slice(),
        ) {
            QuestMarker::AvailableLowLevel
        } else {
            QuestMarker::NoMarker
        }
    } else {
        QuestMarker::NoMarker
    }
}

/// Determine the quest marker for an NPC given the player's quest state.
///
/// Checks all quests the NPC offers or accepts, returning the highest-priority marker.
/// Priority: TurnIn > TurnInIncomplete > Available > AvailableLowLevel > NoMarker.
pub fn npc_quest_marker(npc_id: u32, quests: &[QuestData], log: &QuestLog, player_level: u8) -> (m:
    QuestMarker)
    ensures
        m == best_marker(npc_id, quests@, quests@, *log, player_level),
{
    let mut best = QuestMarker::NoMarker;
    let mut i: usize = 0;
    while i < quests.len()
        invariant
            i <= quests@.len(),
            best == best_marker(npc_id, quests@.take(i as int), quests@, *log, player_level),
        decreases quests.len() - i,
    {
        let quest = &quests[i];
        proof {
            assert(quests@.take(i + 1).drop_last() =~= quests@.take(i as int));
            assert(quests@.take(i + 1).last() == *quest);
        }
        let turn_in = quest_turn_in_marker(quest, npc_id, log);
        best = higher_priority(best, turn_in);
        let offer = quest_offer_marker(quest, npc_id, quests, log, player_level);
        best = higher_priority(best, offer);
        i = i + 1;
    }
    proof {
        assert(quests@.take(i as int) =~= quests@);
    }
    best
}

/// The marker shown outranks (or equals) every marker any single quest
/// would show, and is one of them unless none shows anything.
pub proof fn lemma_marker_is_highest(
    npc_id: u32,
    shown: Seq<QuestData>,
    quests: Seq<QuestData>,
    log: QuestLog,
    player_level: u8,
)
    ensures
        forall|i: int|
            0 <= i < shown.len() ==> marker_rank(
                best_marker(npc_id, shown, quests, log, player_level),
            ) >= marker_rank(turn_in_marker(#[trigger] shown[i], npc_id, log)) && marker_rank(
                best_marker(npc_id, shown, quests, log, player_level),
            ) >= marker_rank(offer_marker(shown[i], npc_id, quests, log, player_level)),
        best_marker(npc_id, shown, quests, log, player_level) == QuestMarker::NoMarker || exists|
            i: int,
        |
            0 <= i < shown.len() && (best_marker(npc_id, shown, quests, log, player_level)
                == turn_in_marker(#[trigger] shown[i], npc_id, log) || best_marker(
                npc_id,
                shown,
                quests,
                log,
                player_level,
            ) == offer_marker(shown[i], npc_id, quests, log, player_level)),
    decreases shown.len(),
{
    if shown.len() > 0 {
        let rest = shown.drop_last();
        lemma_marker_is_highest(npc_id, rest, quests, log, player_level);
        assert forall|i: int| 0 <= i < rest.len() implies #[trigger] rest[i] == shown[i] by {}
        let prev = best_marker(npc_id, rest, quests, log, player_level);
        if prev != QuestMarker::NoMarker {
            let i = choose|i: int|
                0 <= i < rest.len() && (prev == turn_in_marker(#[trigger] rest[i], npc_id, log)
                    || prev == offer_marker(rest[i], npc_id, quests, log, player_level));
            assert(shown[i] == rest[i]);
        }
        let last = shown.len() - 1;
        assert(shown[last] == shown.last());
        let best = best_marker(npc_id, shown, quests, log, player_level);
        assert(marker_rank(best) >= marker_rank(prev));
        assert forall|i: int| 0 <= i < shown.len() implies marker_rank(best) >= marker_rank(
            turn_in_marker(#[trigger] shown[i], npc_id, log),
        ) && marker_rank(best) >= marker_rank(offer_marker(shown[i], npc_id, quests, log, player_level)) by {
            if i < last {
                assert(rest[i] == shown[i]);
            }
        }
    }
}

/// A quest just accepted is in the active log.
pub proof fn lemma_accepted_quest_is_active(before: QuestLog, after: QuestLog, quest_id: u32)
    requires
        after.active@.len() == before.active@.len() + 1,
        after.active@.drop_last() == before.active@,
        after.active@.last().quest_id == quest_id,
    ensures
        has_quest_spec(after.active@, quest_id),
{
    assert(after.active@[after.active@.len() - 1].quest_id == quest_id);
}

/// Once a quest is turned in or abandoned, no entry for it stays active.
pub proof fn lemma_removed_quest_not_active(active: Seq<QuestProgress>, quest_id: u32)
    ensures
        !has_quest_spec(active.filter(other_quest(quest_id)), quest_id),
{
    let f = active.filter(other_quest(quest_id));
    assert forall|i: int| 0 <= i < f.len() implies (#[trigger] f[i]).quest_id != quest_id by {
        active.lemma_filter_pred(other_quest(quest_id), i);
    }
}

/// After `process_resets(now)` no remaining cooldown is over at `now`.
pub proof fn lemma_resets_leave_running_cooldowns(cooldowns: Seq<QuestCooldown>, now: u64)
    ensures
        forall|i: int|
            0 <= i < cooldowns.filter(still_cooling(now)).len() ==> !reset_at(
                #[trigger] cooldowns.filter(still_cooling(now))[i],
                now,
            ),
{
    assert forall|i: int| 0 <= i < cooldowns.filter(still_cooling(now)).len() implies !reset_at(
        #[trigger] cooldowns.filter(still_cooling(now))[i],
        now,
    ) by {
        cooldowns.lemma_filter_pred(still_cooling(now), i);
    }
}

/// A repeatable quest resets at the first period boundary strictly after
/// its completion.
pub proof fn lemma_next_reset_is_next_boundary(cd: QuestCooldown)
    requires
        cd.repeat != QuestRepeat::OneTime,
    ensures
        cd.completed_at < next_reset_spec(cd) <= cd.completed_at + period_of(cd.repeat),
        next_reset_spec(cd) % period_of(cd.repeat) == 0,
{
    let p = period_of(cd.repeat);
    let c = cd.completed_at as int;
    assert(p > 0);
    assert((c / p + 1) * p == (c / p) * p + p) by (nonlinear_arith);
    assert(c == (c / p) * p + c % p) by (nonlinear_arith)
        requires
            p > 0,
    ;
    assert(0 <= c % p < p) by (nonlinear_arith)
        requires
            p > 0,
    ;
    assert(((c / p + 1) * p) % p == 0) by (nonlinear_arith)
        requires
            p > 0,
    ;
}

/// Kill and collect counts never pass their requirement once within it.
pub proof fn lemma_record_stays_within_required(p: ObjectiveProgress, q: ObjectiveProgress, count: u16)
    requires
        p matches ObjectiveProgress::Kill { current, required } ==> current <= required,
        p matches ObjectiveProgress::Collect { current, required } ==> current <= required,
        (p matches ObjectiveProgress::Kill { current, required } && current < required
            && q == ObjectiveProgress::Kill { current: (current + 1) as u16, required }) || (
        p matches ObjectiveProgress::Collect { current, required } && current < required
            && q == ObjectiveProgress::Collect {
            current: (if current + count < required {
                current + count
            } else {
                required as int
            }) as u16,
            required,
        }),
    ensures
        q matches ObjectiveProgress::Kill { current, required } ==> current <= required,
        q matches ObjectiveProgress::Collect { current, required } ==> current <= required,
{
}

/// Every active entry for this quest id is Complete, and there is one.
pub open spec fn active_and_complete(log: QuestLog, quest_id: u32) -> bool {
    &&& has_quest_spec(log.active@, quest_id)
    &&& forall|i: int|
        0 <= i < log.active@.len() && (#[trigger] log.active@[i]).quest_id == quest_id
            ==> log.active@[i].state == QuestState::Complete
}

/// A completed active quest is handed in where it says: when the quest names a
/// turn-in NPC, that NPC shows the turn-in marker and no other NPC (the giver
/// included) gets a turn-in marker from this quest; when it names none
/// (`turn_in_npc == 0`), the quest giver shows the turn-in marker.
#[verifier::spinoff_prover]
pub proof fn lemma_turn_in_marker_placement(
    quests: Seq<QuestData>,
    k: int,
    log: QuestLog,
    player_level: u8,
    other_npc: u32,
)
    requires
        0 <= k < quests.len(),
        active_and_complete(log, quests[k].id),
    ensures
        quests[k].turn_in_npc != 0 ==> best_marker(
            quests[k].turn_in_npc,
            quests,
            quests,
            log,
            player_level,
        ) == QuestMarker::TurnIn,
        quests[k].turn_in_npc != 0 && other_npc != quests[k].turn_in_npc ==> turn_in_marker(
            quests[k],
            other_npc,
            log,
        ) == QuestMarker::NoMarker,
        quests[k].turn_in_npc == 0 ==> best_marker(
            quests[k].quest_giver,
            quests,
            quests,
            log,
            player_level,
        ) == QuestMarker::TurnIn,
{
    let q = quests[k];
    lemma_quest_index(log.active@, q.id);
    let idx = quest_index(log.active@, q.id);
    assert(log.active@[idx].state == QuestState::Complete);
    let npc = if q.turn_in_npc != 0 {
        q.turn_in_npc
    } else {
        q.quest_giver
    };
    assert(turn_in_marker(q, npc, log) == QuestMarker::TurnIn) by {
        reveal(turn_in_marker);
    }
    if q.turn_in_npc != 0 && other_npc != q.turn_in_npc {
        assert(turn_in_marker(q, other_npc, log) == QuestMarker::NoMarker) by {
            reveal(turn_in_marker);
        }
    }
    lemma_marker_is_highest(npc, quests, quests, log, player_level);
    let best = best_marker(npc, quests, quests, log, player_level);
    assert(marker_rank(best) >= marker_rank(turn_in_marker(quests[k], npc, log)));
}

/// A quest that is neither active nor done is offered by its giver and by no
/// other NPC: the giver shows at least the yellow `!` when the player can
/// accept it, and at least the silver `!` when only the level is missing.
#[verifier::spinoff_prover]
pub proof fn lemma_offer_marker_placement(
    quests: Seq<QuestData>,
    k: int,
    log: QuestLog,
    player_level: u8,
    other_npc: u32,
)
    requires
        0 <= k < quests.len(),
        !has_quest_spec(log.active@, quests[k].id),
        !log.completed@.contains(quests[k].id),
    ensures
        can_accept_spec(quests[k], player_level, log.completed@, quests) ==> marker_rank(
            best_marker(quests[k].quest_giver, quests, quests, log, player_level),
        ) >= marker_rank(QuestMarker::Available),
        player_level < quests[k].required_level && prerequisites_met_spec(
            quests[k].prerequisites@,
            log.completed@,
        ) ==> marker_rank(best_marker(quests[k].quest_giver, quests, quests, log, player_level))
            >= marker_rank(QuestMarker::AvailableLowLevel),
        other_npc != quests[k].quest_giver ==> offer_marker(
            quests[k],
            other_npc,
            quests,
            log,
            player_level,
        ) == QuestMarker::NoMarker,
{
    let q = quests[k];
    if other_npc != q.quest_giver {
        assert(offer_marker(q, other_npc, quests, log, player_level) == QuestMarker::NoMarker) by {
            reveal(offer_marker);
        }
    }
    if can_accept_spec(q, player_level, log.completed@, quests) {
        assert(offer_marker(q, q.quest_giver, quests, log, player_level) == QuestMarker::Available)
            by {
            reveal(offer_marker);
        }
    } else if player_level < q.required_level && prerequisites_met_spec(
        q.prerequisites@,
        log.completed@,
    ) {
        assert(offer_marker(q, q.quest_giver, quests, log, player_level)
            == QuestMarker::AvailableLowLevel) by {
            reveal(offer_marker);
        }
    }
    lemma_marker_is_highest(quests[k].quest_giver, quests, quests, log, player_level);
    let best = best_marker(quests[k].quest_giver, quests, quests, log, player_level);
    assert(marker_rank(best) >= marker_rank(
        offer_marker(quests[k], quests[k].quest_giver, quests, log, player_level),
    ));
}

} // verus!
