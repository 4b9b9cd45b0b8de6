//! GM ticket system: player support requests.
//!
//! Players submit tickets with a category and description.
//! GMs claim, respond, and resolve tickets via admin IPC.
//! Ref: AzerothCore `TicketMgr.cpp`.
use vstd::prelude::*;
use vstd::string::StrSliceExecFns;

verus! {

/// Ticket category for routing and prioritization.
#[derive(Debug, Clone, Copy, PartialEq, Eq, Hash, Structural)]
pub enum TicketCategory {
    /// Stuck character (can't move, fell through world).
    Stuck,
    /// Bug report.
    Bug,
    /// Harassment or player behavior.
    Harassment,
    /// Item or loot issue.
    Item,
    /// Quest issue (broken objective, missing NPC).
    Quest,
    /// Account or billing question.
    Account,
    /// Other / general.
    Other,
}

/// Priority level for queue ordering. Higher = handled first.
#[derive(Debug, Clone, Copy, PartialEq, Eq, PartialOrd, Ord, Hash, Structural)]
pub enum TicketPriority {
    /// Standard issues (bugs, quests, items, account, other).
    Normal,
    /// Time-sensitive issues (stuck characters).
    High,
    /// Safety issues (harassment, exploits).
    Critical,
}

/// Position of a priority in Normal < High < Critical (the declared order).
pub open spec fn priority_rank(p: TicketPriority) -> int {
    match p {
        TicketPriority::Normal => 0,
        TicketPriority::High => 1,
        TicketPriority::Critical => 2,
    }
}

/// Harassment is critical, a stuck character high, everything else normal.
pub open spec fn default_priority_spec(category: TicketCategory) -> TicketPriority {
    match category {
        TicketCategory::Harassment => TicketPriority::Critical,
        TicketCategory::Stuck => TicketPriority::High,
        _ => TicketPriority::Normal,
    }
}

/// Default priority based on category.
pub fn default_priority(category: TicketCategory) -> (p: TicketPriority)
    ensures
        p == default_priority_spec(category),
{
    match category {
        TicketCategory::Harassment => TicketPriority::Critical,
        TicketCategory::Stuck => TicketPriority::High,
        _ => TicketPriority::Normal,
    }
}

/// Only harassment tickets start critical and only stuck-character tickets
/// start high; bug, item, quest, account and other tickets start normal.
pub proof fn lemma_default_priority_by_category(category: TicketCategory)
    ensures
        (default_priority_spec(category) == TicketPriority::Critical) <==> (category
            == TicketCategory::Harassment),
        (default_priority_spec(category) == TicketPriority::High) <==> (category
            == TicketCategory::Stuck),
        (default_priority_spec(category) == TicketPriority::Normal) <==> (category
            != TicketCategory::Harassment && category != TicketCategory::Stuck),
{
}

/// Current state of a ticket.
#[derive(Debug, Clone, Copy, PartialEq, Eq, Structural)]
pub enum TicketState {
    /// Waiting in queue for a GM.
    Open,
    /// A GM has claimed the ticket.
    Assigned,
    /// GM has resolved the issue.
    Resolved,
    /// Escalated to a senior GM.
    Escalated,
}

/// A GM response message on a ticket.
#[derive(Debug, Clone, PartialEq, Eq)]
pub struct TicketResponse {
    /// GM who wrote the response.
    pub gm_name: String,
    /// Response text.
    pub message: String,
    /// Server timestamp.
    pub timestamp: u64,
}

/// A notification for the player about their ticket.
#[derive(Debug, Clone, PartialEq, Eq)]
pub enum TicketNotification {
    /// A GM has responded to the ticket.
    GmResponse { ticket_id: u64, player: u64, gm_name: String, message: String },
    /// Ticket has been assigned to a GM.
    Assigned { ticket_id: u64, player: u64, gm_name: String },
    /// Ticket has been resolved.
    Resolved { ticket_id: u64, player: u64 },
    /// Ticket has been escalated.
    Escalated { ticket_id: u64, player: u64 },
}

/// A player-submitted support ticket.
#[derive(Debug, Clone, PartialEq)]
pub struct Ticket {
    /// Unique ticket ID.
    pub id: u64,
    /// Player who submitted the ticket.
    pub player: u64,
    /// Category for routing.
    pub category: TicketCategory,
    /// Player's description of the issue.
    pub description: String,
    /// Current ticket state.
    pub state: TicketState,
    /// Queue priority (derived from category, can be overridden by GM).
    pub priority: TicketPriority,
    /// GM who claimed this ticket (None if unassigned).
    pub assigned_to: Option<String>,
    /// GM responses on this ticket.
    pub responses: Vec<TicketResponse>,
    /// Server timestamp when created.
    pub created_at: u64,
}

/// Why a ticket operation failed.
#[derive(Debug, Clone, Copy, PartialEq, Eq, Structural)]
pub enum TicketError {
    /// Player already has an open ticket.
    AlreadyHasTicket,
    /// Description is empty.
    EmptyDescription,
    /// Description exceeds maximum length.
    DescriptionTooLong,
    /// No ticket found with this ID.
    NotFound,
    /// Ticket is already assigned to a GM.
    AlreadyAssigned,
    /// Ticket is not in a claimable state (not Open).
    NotOpen,
    /// Ticket is not assigned (can't unassign).
    NotAssigned,
    /// Ticket is already resolved.
    AlreadyResolved,
    /// Invalid state transition (e.g. resolving an Open ticket).
    InvalidTransition,
}

/// Maximum description length in characters.
pub const MAX_DESCRIPTION_LEN: usize = 500;

// --- Stable ordering ---

/// `ix` lists every position of `keys` once, by ascending key, positions
/// with equal keys in their original order.
pub open spec fn is_stable_order(keys: Seq<u128>, ix: Seq<int>) -> bool {
    &&& ix.len() == keys.len()
    &&& forall|i: int| 0 <= i < ix.len() ==> 0 <= #[trigger] ix[i] < keys.len()
    &&& ix.no_duplicates()
    &&& forall|i: int, j: int|
        #![trigger ix[i], ix[j]]
        0 <= i < j < ix.len() ==> keys[ix[i]] < keys[ix[j]] || (keys[ix[i]] == keys[ix[j]] && ix[i]
            < ix[j])
}

/// `items` arranged in the order `ix` gives.
pub open spec fn arranged<'a>(r: Seq<&'a Ticket>, items: Seq<&'a Ticket>, ix: Seq<int>) -> bool {
    &&& r.len() == ix.len()
    &&& forall|i: int| 0 <= i < r.len() ==> #[trigger] r[i] == items[ix[i]]
}

/// Sort `items` by ascending key, keeping items with equal keys in their order.
fn stable_sort_by_key<'a>(items: &Vec<&'a Ticket>, keys: &Vec<u128>) -> (r: Vec<&'a Ticket>)
    requires
        items@.len() == keys@.len(),
    ensures
        exists|ix: Seq<int>| is_stable_order(keys@, ix) && arranged(r@, items@, ix),
{
    let mut out: Vec<&'a Ticket> = Vec::new();
    let mut out_keys: Vec<u128> = Vec::new();
    let ghost mut ix: Seq<int> = Seq::empty();
    let mut k: usize = 0;
    while k < items.len()
        invariant
            k <= items@.len(),
            items@.len() == keys@.len(),
            ix.len() == k,
            out@.len() == k,
            out_keys@.len() == k,
            forall|i: int| 0 <= i < k ==> 0 <= #[trigger] ix[i] < k,
            ix.no_duplicates(),
            forall|i: int, j: int|
                #![trigger ix[i], ix[j]]
                0 <= i < j < k ==> keys@[ix[i]] < keys@[ix[j]] || (keys@[ix[i]] == keys@[ix[j]]
                    && ix[i] < ix[j]),
            forall|i: int| 0 <= i < k ==> #[trigger] out_keys@[i] == keys@[ix[i]],
            forall|i: int| 0 <= i < k ==> #[trigger] out@[i] == items@[ix[i]],
        decreases items.len() - k,
    {
        let key = keys[k];
        let mut p: usize = 0;
        while p < out_keys.len() && out_keys[p] <= key
            invariant
                p <= out_keys@.len(),
                forall|i: int| 0 <= i < p ==> out_keys@[i] <= key,
            decreases out_keys.len() - p,
        {
            p = p + 1;
        }
        proof {
            // Every key from `p` on exceeds `key`, as keys in `out` ascend.
            assert forall|i: int| p <= i < k implies out_keys@[i] > key by {
                if p < k && i > p {
                    assert(keys@[ix[p as int]] <= keys@[ix[i]]);
                }
            }
        }
        let ghost prev_keys = out_keys@;
        out.insert(p, items[k]);
        out_keys.insert(p, key);
        let ghost old_ix = ix;
        proof {
            ix = ix.insert(p as int, k as int);
            assert forall|i: int| 0 <= i < k + 1 implies 0 <= #[trigger] ix[i] < k + 1 by {
                if i < p {
                    assert(ix[i] == old_ix[i]);
                } else if i > p {
                    assert(ix[i] == old_ix[i - 1]);
                }
            }
            assert forall|i: int, j: int| 0 <= i < j < ix.len() implies ix[i] != ix[j] by {
                if i < p && j < p {
                    assert(ix[i] == old_ix[i] && ix[j] == old_ix[j]);
                } else if i < p && j == p {
                    assert(old_ix[i] < k);
                } else if i < p && j > p {
                    assert(ix[i] == old_ix[i] && ix[j] == old_ix[j - 1]);
                } else if i == p {
                    assert(old_ix[j - 1] < k);
                } else {
                    assert(ix[i] == old_ix[i - 1] && ix[j] == old_ix[j - 1]);
                }
            }
            assert forall|i: int, j: int|
                #![trigger ix[i], ix[j]]
                0 <= i < j < k + 1 implies keys@[ix[i]] < keys@[ix[j]] || (keys@[ix[i]]
                == keys@[ix[j]] && ix[i] < ix[j]) by {
                if i < p && j < p {
                    assert(ix[i] == old_ix[i] && ix[j] == old_ix[j]);
                } else if i < p && j == p {
                    assert(prev_keys[i] <= key);
                    assert(prev_keys[i] == keys@[old_ix[i]]);
                    assert(old_ix[i] < k);
                } else if i < p && j > p {
                    assert(ix[i] == old_ix[i] && ix[j] == old_ix[j - 1]);
                } else if i == p {
                    assert(ix[j] == old_ix[j - 1]);
                    assert(keys@[old_ix[j - 1]] > key);
                } else {
                    assert(ix[i] == old_ix[i - 1] && ix[j] == old_ix[j - 1]);
                }
            }
            assert forall|i: int| 0 <= i < k + 1 implies #[trigger] out_keys@[i] == keys@[ix[i]] by {
                if i < p {
                    assert(ix[i] == old_ix[i]);
                } else if i > p {
                    assert(ix[i] == old_ix[i - 1]);
                }
            }
            assert forall|i: int| 0 <= i < k + 1 implies #[trigger] out@[i] == items@[ix[i]] by {
                if i < p {
                    assert(ix[i] == old_ix[i]);
                } else if i > p {
                    assert(ix[i] == old_ix[i - 1]);
                }
            }
        }
        k = k + 1;
    }
    proof {
        assert(is_stable_order(keys@, ix));
        assert(arranged(out@, items@, ix));
    }
    out
}

// --- Ticket manager ---

/// The ticket still needs attention (open, assigned or escalated).
pub open spec fn is_active(t: Ticket) -> bool {
    t.state == TicketState::Open || t.state == TicketState::Assigned || t.state
        == TicketState::Escalated
}

/// Some ticket of the player is still active.
pub open spec fn has_active_ticket(ts: Seq<Ticket>, player: u64) -> bool {
    exists|i: int| 0 <= i < ts.len() && (#[trigger] ts[i]).player == player && is_active(ts[i])
}

/// Some ticket has this id.
pub open spec fn has_ticket(ts: Seq<Ticket>, id: u64) -> bool {
    exists|i: int| 0 <= i < ts.len() && (#[trigger] ts[i]).id == id
}

/// Position of the ticket with this id.
pub open spec fn ticket_index(ts: Seq<Ticket>, id: u64) -> int {
    choose|i: int| 0 <= i < ts.len() && ts[i].id == id
}

/// Tickets of a player.
pub open spec fn of_player(player: u64) -> spec_fn(Ticket) -> bool {
    |t: Ticket| t.player == player
}

/// Resolved tickets of a player.
pub open spec fn resolved_of(player: u64) -> spec_fn(Ticket) -> bool {
    |t: Ticket| t.player == player && t.state == TicketState::Resolved
}

/// Tickets in a state.
pub open spec fn in_state(state: TicketState) -> spec_fn(Ticket) -> bool {
    |t: Ticket| t.state == state
}

/// Open tickets of a priority.
pub open spec fn open_with(priority: TicketPriority) -> spec_fn(Ticket) -> bool {
    |t: Ticket| t.state == TicketState::Open && t.priority == priority
}

/// Tickets claimed by the GM of this name.
pub open spec fn assigned_name(name: Seq<char>) -> spec_fn(Ticket) -> bool {
    |t: Ticket| t.assigned_to matches Some(n) && n@ == name
}

/// Newest first: ascending in this key means descending creation time.
pub open spec fn history_key(t: Ticket) -> u128 {
    (u64::MAX - t.created_at) as u128
}

/// Highest priority first, then oldest first.
pub open spec fn queue_key(t: Ticket) -> u128 {
    ((2 - priority_rank(t.priority)) * 0x1_0000_0000_0000_0000 + t.created_at) as u128
}

/// `r` holds the tickets of `s` ordered by ascending `key`, ties kept in order.
pub open spec fn sorted_by(r: Seq<&Ticket>, s: Seq<Ticket>, key: spec_fn(Ticket) -> u128) -> bool {
    exists|ix: Seq<int>|
        is_stable_order(s.map_values(key), ix) && r.len() == ix.len() && forall|i: int|
            0 <= i < r.len() ==> *(#[trigger] r[i]) == s[ix[i]]
}

fn history_key_of(t: &Ticket) -> (k: u128)
    ensures
        k == history_key(*t),
{
    (u64::MAX - t.created_at) as u128
}

fn queue_key_of(t: &Ticket) -> (k: u128)
    ensures
        k == queue_key(*t),
{
    let rank: u128 = match t.priority {
        TicketPriority::Normal => 0,
        TicketPriority::High => 1,
        TicketPriority::Critical => 2,
    };
    (2 - rank) * 0x1_0000_0000_0000_0000 + t.created_at as u128
}

/// `after` is `before` with ticket `id` claimed by the GM `gm`: the ticket
/// is Assigned to that GM and the player has been told.
pub open spec fn assigned_now(before: TicketManager, after: TicketManager, id: u64, gm: Seq<char>) -> bool {
    let k = ticket_index(before.ticket_list(), id);
    let t = before.ticket_with(id);
    let a = after.ticket_list()[k];
    let n = after.notification_list().last();
    &&& after.ticket_list() == before.ticket_list().update(k, a)
    &&& a == (Ticket { state: TicketState::Assigned, assigned_to: a.assigned_to, ..t })
    &&& a.assigned_to matches Some(g) && g@ == gm
    &&& after.next_ticket_id() == before.next_ticket_id()
    &&& after.notification_list().drop_last() == before.notification_list()
    &&& after.notification_list().len() == before.notification_list().len() + 1
    &&& n matches TicketNotification::Assigned { ticket_id, player, gm_name: g } && ticket_id == id
        && player == t.player && g@ == gm
}

/// Manages all active tickets.
#[derive(Debug, Clone, PartialEq)]
pub struct TicketManager {
    tickets: Vec<Ticket>,
    next_id: u64,
    /// Pending notifications for players. The server drains these each tick.
    pub notifications: Vec<TicketNotification>,
}

impl Default for TicketManager {
    fn default() -> (r: Self)
        ensures
            r.wf(),
            r.ticket_list().len() == 0,
            r.next_ticket_id() == 0,
            r.notification_list().len() == 0,
    {
        TicketManager { tickets: Vec::new(), next_id: 0, notifications: Vec::new() }
    }
}

impl TicketManager {
    /// All tickets, in creation order.
    pub closed spec fn ticket_list(&self) -> Seq<Ticket> {
        self.tickets@
    }

    /// The id the next ticket gets.
    pub closed spec fn next_ticket_id(&self) -> u64 {
        self.next_id
    }

    /// Notifications not yet drained, oldest first.
    pub closed spec fn notification_list(&self) -> Seq<TicketNotification> {
        self.notifications@
    }

    /// Ids are distinct and below the next id; an open ticket is unclaimed.
    pub open spec fn wf(&self) -> bool {
        &&& forall|i: int|
            0 <= i < self.ticket_list().len() ==> (#[trigger] self.ticket_list()[i]).id
                < self.next_ticket_id()
        &&& forall|i: int, j: int|
            0 <= i < j < self.ticket_list().len() ==> (#[trigger] self.ticket_list()[i]).id != (
            #[trigger] self.ticket_list()[j]).id
        &&& forall|i: int|
            0 <= i < self.ticket_list().len() && (#[trigger] self.ticket_list()[i]).state
                == TicketState::Open ==> self.ticket_list()[i].assigned_to is None
    }

    /// The ticket with this id (meaningful where one exists).
    pub open spec fn ticket_with(&self, id: u64) -> Ticket {
        self.ticket_list()[ticket_index(self.ticket_list(), id)]
    }

    pub fn new() -> (r: Self)
        ensures
            r.wf(),
            r.ticket_list().len() == 0,
            r.next_ticket_id() == 1,
            r.notification_list().len() == 0,
    {
        TicketManager { tickets: Vec::new(), next_id: 1, notifications: Vec::new() }
    }

    /// Drain all pending notifications (server sends these to players).
    pub fn drain_notifications(&mut self) -> (drained: Vec<TicketNotification>)
        ensures
            drained@ == old(self).notification_list(),
            final(self).notification_list().len() == 0,
            final(self).ticket_list() == old(self).ticket_list(),
            final(self).next_ticket_id() == old(self).next_ticket_id(),
    {
        let mut drained: Vec<TicketNotification> = Vec::new();
        std::mem::swap(&mut drained, &mut self.notifications);
        drained
    }

    fn find(&self, id: u64) -> (r: Option<usize>)
        requires
            self.wf(),
        ensures
            r is None <==> !has_ticket(self.ticket_list(), id),
            r matches Some(i) ==> i == ticket_index(self.ticket_list(), id) && i
                < self.ticket_list().len() && self.ticket_list()[i as int].id == id,
    {
        let mut i: usize = 0;
        while i < self.tickets.len()
            invariant
                i <= self.tickets@.len(),
                self.wf(),
                forall|k: int| 0 <= k < i ==> (#[trigger] self.tickets@[k]).id != id,
            decreases self.tickets.len() - i,
        {
            if self.tickets[i].id == id {
                proof {
                    let c = ticket_index(self.ticket_list(), id);
                    assert(self.ticket_list()[i as int].id == id);
                    if c != i {
                        assert(self.ticket_list()[c].id == id);
                        if c < i {
                            assert(self.ticket_list()[c].id != self.ticket_list()[i as int].id);
                        } else {
                            assert(self.ticket_list()[i as int].id != self.ticket_list()[c].id);
                        }
                    }
                }
                return Some(i);
            }
            i = i + 1;
        }
        None
    }

    /// Create a new ticket. One open ticket per player.
    pub fn create(&mut self, player: u64, category: TicketCategory, description: &str, now: u64) -> (r:
        Result<u64, TicketError>)
        requires
            old(self).wf(),
            old(self).next_ticket_id() < u64::MAX,
        ensures
            final(self).wf(),
            description@.len() == 0 ==> r == Err::<u64, TicketError>(TicketError::EmptyDescription),
            description@.len() != 0 && description@.len() > MAX_DESCRIPTION_LEN ==> r
                == Err::<u64, TicketError>(TicketError::DescriptionTooLong),
            description@.len() != 0 && description@.len() <= MAX_DESCRIPTION_LEN
                && has_active_ticket(old(self).ticket_list(), player) ==> r == Err::<
                u64,
                TicketError,
            >(TicketError::AlreadyHasTicket),
            r is Err ==> final(self).ticket_list() == old(self).ticket_list(),
            r is Err ==> final(self).next_ticket_id() == old(self).next_ticket_id(),
            r is Ok <==> (description@.len() != 0 && description@.len()
                <= MAX_DESCRIPTION_LEN && !has_active_ticket(old(self).ticket_list(), player)),
            r matches Ok(id) ==> {
                let t = final(self).ticket_list().last();
                &&& id == old(self).next_ticket_id()
                &&& final(self).next_ticket_id() == id + 1
                &&& final(self).ticket_list().drop_last() == old(self).ticket_list()
                &&& final(self).ticket_list().len() == old(self).ticket_list().len() + 1
                &&& t.id == id
                &&& t.player == player
                &&& t.category == category
                &&& t.description@ == description@
                &&& t.state == TicketState::Open
                &&& t.priority == default_priority_spec(category)
                &&& t.assigned_to is None
                &&& t.responses@.len() == 0
                &&& t.created_at == now
            },
            final(self).notification_list() == old(self).notification_list(),
    {
        if description.is_empty() {
            return Err(TicketError::EmptyDescription);
        }
        if description.unicode_len() > MAX_DESCRIPTION_LEN {
            return Err(TicketError::DescriptionTooLong);
        }
        let mut i: usize = 0;
        while i < self.tickets.len()
            invariant
                i <= self.tickets@.len(),
                *self == *old(self),
                self.wf(),
                description@.len() != 0,
                description@.len() <= MAX_DESCRIPTION_LEN,
                forall|k: int|
                    0 <= k < i ==> !((#[trigger] self.tickets@[k]).player == player && is_active(
                        self.tickets@[k],
                    )),
            decreases self.tickets.len() - i,
        {
            let t = &self.tickets[i];
            if t.player == player && (t.state == TicketState::Open || t.state
                == TicketState::Assigned || t.state == TicketState::Escalated) {
                return Err(TicketError::AlreadyHasTicket);
            }
            i = i + 1;
        }
        let id = self.next_id;
        self.next_id = self.next_id + 1;
        self.tickets.push(
            Ticket {
                id,
                player,
                category,
                description: String::from_str(description),
                state: TicketState::Open,
                priority: default_priority(category),
                assigned_to: None,
                responses: Vec::new(),
                created_at: now,
            },
        );
        proof {
            assert(self.ticket_list().drop_last() =~= old(self).ticket_list());
            assert forall|a: int, b: int|
                0 <= a < b < self.ticket_list().len() implies (#[trigger] self.ticket_list()[a]).id
                != (#[trigger] self.ticket_list()[b]).id by {
                if b == self.ticket_list().len() - 1 {
                    assert(old(self).ticket_list()[a].id < id);
                }
            }
        }
        Ok(id)
    }

    /// Look up a ticket by ID.
    pub fn get(&self, id: u64) -> (r: Option<&Ticket>)
        requires
            self.wf(),
        ensures
            r is None <==> !has_ticket(self.ticket_list(), id),
            r matches Some(t) ==> *t == self.ticket_with(id),
    {
        match self.find(id) {
            Some(i) => Some(&self.tickets[i]),
            None => None,
        }
    }

    /// Find a player's first active (non-resolved) ticket.
    pub fn find_player_ticket(&self, player: u64) -> (r: Option<&Ticket>)
        ensures
            r is None <==> forall|i: int|
                0 <= i < self.ticket_list().len() ==> !((#[trigger] self.ticket_list()[i]).player
                    == player && self.ticket_list()[i].state != TicketState::Resolved),
            r matches Some(t) ==> exists|i: int|
                0 <= i < self.ticket_list().len() && *t == self.ticket_list()[i] && t.player
                    == player && t.state != TicketState::Resolved && forall|m: int|
                    0 <= m < i ==> !((#[trigger] self.ticket_list()[m]).player == player
                        && self.ticket_list()[m].state != TicketState::Resolved),
    {
        let mut i: usize = 0;
        while i < self.tickets.len()
            invariant
                i <= self.tickets@.len(),
                forall|k: int|
                    0 <= k < i ==> !((#[trigger] self.tickets@[k]).player == player
                        && self.tickets@[k].state != TicketState::Resolved),
            decreases self.tickets.len() - i,
        {
            if self.tickets[i].player == player && self.tickets[i].state != TicketState::Resolved {
                proof {
                    assert(self.ticket_list()[i as int] == self.tickets@[i as int]);
                }
                return Some(&self.tickets[i]);
            }
            i = i + 1;
        }
        None
    }

    /// The tickets matching one of the list filters, in creation order,
    /// with each one's sort key.
    fn collect_with_keys(&self, player: u64, which: u8) -> (r: (Vec<&Ticket>, Vec<u128>))
        requires
            which < 3,
        ensures
            r.0@.len() == r.1@.len(),
            which == 0 ==> r.0@.unref() == self.ticket_list().filter(of_player(player))
                && r.1@ == self.ticket_list().filter(of_player(player)).map_values(
                |t: Ticket| history_key(t),
            ),
            which == 1 ==> r.0@.unref() == self.ticket_list().filter(resolved_of(player))
                && r.1@ == self.ticket_list().filter(resolved_of(player)).map_values(
                |t: Ticket| history_key(t),
            ),
            which == 2 ==> r.0@.unref() == self.ticket_list().filter(in_state(TicketState::Open))
                && r.1@ == self.ticket_list().filter(in_state(TicketState::Open)).map_values(
                |t: Ticket| queue_key(t),
            ),
    {
        let ghost pred = if which == 0 {
            of_player(player)
        } else if which == 1 {
            resolved_of(player)
        } else {
            in_state(TicketState::Open)
        };
        let ghost key = if which == 2 {
            |t: Ticket| queue_key(t)
        } else {
            |t: Ticket| history_key(t)
        };
        let mut items: Vec<&Ticket> = Vec::new();
        let mut keys: Vec<u128> = Vec::new();
        let mut i: usize = 0;
        while i < self.tickets.len()
            invariant
                i <= self.tickets@.len(),
                which < 3,
                pred == (if which == 0 {
                    of_player(player)
                } else if which == 1 {
                    resolved_of(player)
                } else {
                    in_state(TicketState::Open)
                }),
                key == (if which == 2 {
                    |t: Ticket| queue_key(t)
                } else {
                    |t: Ticket| history_key(t)
                }),
                items@.unref() == self.tickets@.take(i as int).filter(pred),
                keys@ == self.tickets@.take(i as int).filter(pred).map_values(key),
            decreases self.tickets.len() - i,
        {
            proof {
                reveal(Seq::filter);
                assert(self.tickets@.take(i + 1).drop_last() =~= self.tickets@.take(i as int));
                assert(self.tickets@.take(i + 1).last() == self.tickets@[i as int]);
            }
            let t = &self.tickets[i];
            let keep = if which == 0 {
                t.player == player
            } else if which == 1 {
                t.player == player && t.state == TicketState::Resolved
            } else {
                t.state == TicketState::Open
            };
            if keep {
                let k = if which == 2 {
                    queue_key_of(t)
                } else {
                    history_key_of(t)
                };
                let ghost before = self.tickets@.take(i as int).filter(pred);
                items.push(t);
                keys.push(k);
                proof {
                    assert(items@.unref() =~= before.push(*t));
                    assert(keys@ =~= before.push(*t).map_values(key));
                }
            }
            i = i + 1;
        }
        proof {
            assert(self.tickets@.take(i as int) =~= self.tickets@);
        }
        (items, keys)
    }

    /// Full ticket history for a player (all states), newest first
    /// (tickets created at the same time in creation order).
    pub fn player_history(&self, player: u64) -> (r: Vec<&Ticket>)
        ensures
            sorted_by(r@, self.ticket_list().filter(of_player(player)), |t: Ticket| history_key(t)),
    {
        let (items, keys) = self.collect_with_keys(player, 0);
        let r = stable_sort_by_key(&items, &keys);
        proof {
            let s = self.ticket_list().filter(of_player(player));
            let ix = choose|ix: Seq<int>| is_stable_order(keys@, ix) && arranged(r@, items@, ix);
            assert forall|i: int| 0 <= i < r@.len() implies *(#[trigger] r@[i]) == s[ix[i]] by {
                assert(items@.unref()[ix[i]] == *items@[ix[i]]);
            }
        }
        r
    }

    /// Resolved tickets for a player, newest first.
    pub fn player_resolved_history(&self, player: u64) -> (r: Vec<&Ticket>)
        ensures
            sorted_by(r@, self.ticket_list().filter(resolved_of(player)), |t: Ticket| history_key(t)),
    {
        let (items, keys) = self.collect_with_keys(player, 1);
        let r = stable_sort_by_key(&items, &keys);
        proof {
            let s = self.ticket_list().filter(resolved_of(player));
            let ix = choose|ix: Seq<int>| is_stable_order(keys@, ix) && arranged(r@, items@, ix);
            assert forall|i: int| 0 <= i < r@.len() implies *(#[trigger] r@[i]) == s[ix[i]] by {
                assert(items@.unref()[ix[i]] == *items@[ix[i]]);
            }
        }
        r
    }

    /// Total ticket count for a player.
    pub fn player_ticket_count(&self, player: u64) -> (n: usize)
        ensures
            n == self.ticket_list().filter(of_player(player)).len(),
    {
        let mut n: usize = 0;
        let mut i: usize = 0;
        while i < self.tickets.len()
            invariant
                i <= self.tickets@.len(),
                n == self.tickets@.take(i as int).filter(of_player(player)).len(),
                n <= i,
            decreases self.tickets.len() - i,
        {
            proof {
                reveal(Seq::filter);
                assert(self.tickets@.take(i + 1).drop_last() =~= self.tickets@.take(i as int));
                assert(self.tickets@.take(i + 1).last() == self.tickets@[i as int]);
            }
            if self.tickets[i].player == player {
                n = n + 1;
            }
            i = i + 1;
        }
        proof {
            assert(self.tickets@.take(i as int) =~= self.tickets@);
        }
        n
    }

    /// Number of tickets in the system.
    pub fn len(&self) -> (n: usize)
        ensures
            n == self.ticket_list().len(),
    {
        self.tickets.len()
    }

    /// Whether there are no tickets.
    pub fn is_empty(&self) -> (b: bool)
        ensures
            b == (self.ticket_list().len() == 0),
    {
        self.tickets.len() == 0
    }

    /// The tickets in a state, in creation order.
    fn tickets_in_state(&self, state: TicketState) -> (r: Vec<&Ticket>)
        ensures
            r@.unref() == self.ticket_list().filter(in_state(state)),
    {
        let mut r: Vec<&Ticket> = Vec::new();
        let mut i: usize = 0;
        while i < self.tickets.len()
            invariant
                i <= self.tickets@.len(),
                r@.unref() == self.tickets@.take(i as int).filter(in_state(state)),
            decreases self.tickets.len() - i,
        {
            proof {
                reveal(Seq::filter);
                assert(self.tickets@.take(i + 1).drop_last() =~= self.tickets@.take(i as int));
                assert(self.tickets@.take(i + 1).last() == self.tickets@[i as int]);
            }
            let t = &self.tickets[i];
            if t.state == state {
                let ghost before = self.tickets@.take(i as int).filter(in_state(state));
                r.push(t);
                proof {
                    assert(r@.unref() =~= before.push(*t));
                }
            }
            i = i + 1;
        }
        proof {
            assert(self.tickets@.take(i as int) =~= self.tickets@);
        }
        r
    }

    /// All open tickets (not yet assigned), in creation order.
    pub fn open_tickets(&self) -> (r: Vec<&Ticket>)
        ensures
            r@.unref() == self.ticket_list().filter(in_state(TicketState::Open)),
    {
        self.tickets_in_state(TicketState::Open)
    }

    /// All resolved tickets, in creation order.
    pub fn resolved_tickets(&self) -> (r: Vec<&Ticket>)
        ensures
            r@.unref() == self.ticket_list().filter(in_state(TicketState::Resolved)),
    {
        self.tickets_in_state(TicketState::Resolved)
    }

    /// All escalated tickets, in creation order.
    pub fn escalated_tickets(&self) -> (r: Vec<&Ticket>)
        ensures
            r@.unref() == self.ticket_list().filter(in_state(TicketState::Escalated)),
    {
        self.tickets_in_state(TicketState::Escalated)
    }

    /// Open tickets sorted by priority (highest first), then FIFO (oldest first).
    pub fn queue(&self) -> (r: Vec<&Ticket>)
        ensures
            sorted_by(r@, self.ticket_list().filter(in_state(TicketState::Open)), |t: Ticket| queue_key(t)),
    {
        let (items, keys) = self.collect_with_keys(0, 2);
        let r = stable_sort_by_key(&items, &keys);
        proof {
            let s = self.ticket_list().filter(in_state(TicketState::Open));
            let ix = choose|ix: Seq<int>| is_stable_order(keys@, ix) && arranged(r@, items@, ix);
            assert forall|i: int| 0 <= i < r@.len() implies *(#[trigger] r@[i]) == s[ix[i]] by {
                assert(items@.unref()[ix[i]] == *items@[ix[i]]);
            }
        }
        r
    }

    /// Override a ticket's priority (GM escalation/de-escalation).
    pub fn set_priority(&mut self, id: u64, priority: TicketPriority) -> (r: Result<(), TicketError>)
        requires
            old(self).wf(),
        ensures
            final(self).wf(),
            r is Ok <==> has_ticket(old(self).ticket_list(), id),
            r is Err ==> r == Err::<(), TicketError>(TicketError::NotFound) && *final(self) == *old(self),
            r is Ok ==> final(self).ticket_list() == old(self).ticket_list().update(
                ticket_index(old(self).ticket_list(), id),
                Ticket { priority, ..old(self).ticket_with(id) },
            ) && final(self).next_ticket_id() == old(self).next_ticket_id() && final(self).notification_list() == old(self).notification_list(),
    {
        let i = match self.find(id) {
            Some(i) => i,
            None => {
                return Err(TicketError::NotFound);
            },
        };
        self.tickets[i].priority = priority;
        proof {
            assert(self.ticket_list() =~= old(self).ticket_list().update(
                i as int,
                Ticket { priority, ..old(self).ticket_with(id) },
            ));
        }
        Ok(())
    }

    /// Count of open tickets per priority level: (critical, high, normal).
    pub fn queue_counts(&self) -> (r: (usize, usize, usize))
        ensures
            r.0 == self.ticket_list().filter(open_with(TicketPriority::Critical)).len(),
            r.1 == self.ticket_list().filter(open_with(TicketPriority::High)).len(),
            r.2 == self.ticket_list().filter(open_with(TicketPriority::Normal)).len(),
    {
        let mut critical: usize = 0;
        let mut high: usize = 0;
        let mut normal: usize = 0;
        let mut i: usize = 0;
        while i < self.tickets.len()
            invariant
                i <= self.tickets@.len(),
                critical == self.tickets@.take(i as int).filter(open_with(TicketPriority::Critical)).len(),
                high == self.tickets@.take(i as int).filter(open_with(TicketPriority::High)).len(),
                normal == self.tickets@.take(i as int).filter(open_with(TicketPriority::Normal)).len(),
                critical <= i,
                high <= i,
                normal <= i,
            decreases self.tickets.len() - i,
        {
            proof {
                reveal(Seq::filter);
                assert(self.tickets@.take(i + 1).drop_last() =~= self.tickets@.take(i as int));
                assert(self.tickets@.take(i + 1).last() == self.tickets@[i as int]);
            }
            let t = &self.tickets[i];
            if t.state == TicketState::Open {
                match t.priority {
                    TicketPriority::Critical => {
                        critical = critical + 1;
                    },
                    TicketPriority::High => {
                        high = high + 1;
                    },
                    TicketPriority::Normal => {
                        normal = normal + 1;
                    },
                }
            }
            i = i + 1;
        }
        proof {
            assert(self.tickets@.take(i as int) =~= self.tickets@);
        }
        (critical, high, normal)
    }

    /// GM claims a ticket. Moves it from Open → Assigned and tells the player.
    pub fn assign(&mut self, id: u64, gm_name: &str) -> (r: Result<(), TicketError>)
        requires
            old(self).wf(),
        ensures
            final(self).wf(),
            !has_ticket(old(self).ticket_list(), id) ==> r == Err::<(), TicketError>(
                TicketError::NotFound,
            ),
            has_ticket(old(self).ticket_list(), id) && old(self).ticket_with(id).state
                != TicketState::Open ==> r == Err::<(), TicketError>(TicketError::NotOpen),
            has_ticket(old(self).ticket_list(), id) && old(self).ticket_with(id).state
                == TicketState::Open ==> r is Ok,
            r is Err ==> *final(self) == *old(self),
            r is Ok ==> assigned_now(*old(self), *final(self), id, gm_name@),
    {
        let i = match self.find(id) {
            Some(i) => i,
            None => {
                return Err(TicketError::NotFound);
            },
        };
        if self.tickets[i].state != TicketState::Open {
            return Err(TicketError::NotOpen);
        }
        if self.tickets[i].assigned_to.is_some() {
            return Err(TicketError::AlreadyAssigned);
        }
        let player = self.tickets[i].player;
        self.tickets[i].state = TicketState::Assigned;
        self.tickets[i].assigned_to = Some(String::from_str(gm_name));
        self.notifications.push(
            TicketNotification::Assigned { ticket_id: id, player, gm_name: String::from_str(gm_name) },
        );
        proof {
            let after = self.ticket_list()[i as int];
            assert(self.ticket_list() =~= old(self).ticket_list().update(i as int, after));
            assert(self.notification_list().drop_last() =~= old(self).notification_list());
        }
        Ok(())
    }

    /// Release a ticket back to the queue: it becomes Open and unclaimed.
    pub fn unassign(&mut self, id: u64) -> (r: Result<(), TicketError>)
        requires
            old(self).wf(),
        ensures
            final(self).wf(),
            !has_ticket(old(self).ticket_list(), id) ==> r == Err::<(), TicketError>(
                TicketError::NotFound,
            ),
            has_ticket(old(self).ticket_list(), id) && old(self).ticket_with(id).assigned_to is None
                ==> r == Err::<(), TicketError>(TicketError::NotAssigned),
            has_ticket(old(self).ticket_list(), id) && old(self).ticket_with(id).assigned_to is Some
                ==> r is Ok,
            r is Err ==> *final(self) == *old(self),
            r is Ok ==> final(self).ticket_list() == old(self).ticket_list().update(
                ticket_index(old(self).ticket_list(), id),
                Ticket { state: TicketState::Open, assigned_to: None, ..old(self).ticket_with(id) },
            ) && final(self).next_ticket_id() == old(self).next_ticket_id() && final(self).notification_list() == old(self).notification_list(),
    {
        let i = match self.find(id) {
            Some(i) => i,
            None => {
                return Err(TicketError::NotFound);
            },
        };
        if self.tickets[i].assigned_to.is_none() {
            return Err(TicketError::NotAssigned);
        }
        self.tickets[i].state = TicketState::Open;
        self.tickets[i].assigned_to = None;
        proof {
            assert(self.ticket_list() =~= old(self).ticket_list().update(
                i as int,
                Ticket { state: TicketState::Open, assigned_to: None, ..old(self).ticket_with(id) },
            ));
        }
        Ok(())
    }

    /// All tickets assigned to a specific GM, in creation order.
    pub fn assigned_to(&self, gm_name: &str) -> (r: Vec<&Ticket>)
        ensures
            r@.unref() == self.ticket_list().filter(assigned_name(gm_name@)),
    {
        let name = String::from_str(gm_name);
        let mut r: Vec<&Ticket> = Vec::new();
        let mut i: usize = 0;
        while i < self.tickets.len()
            invariant
                i <= self.tickets@.len(),
                name@ == gm_name@,
                r@.unref() == self.tickets@.take(i as int).filter(assigned_name(gm_name@)),
            decreases self.tickets.len() - i,
        {
            proof {
                reveal(Seq::filter);
                assert(self.tickets@.take(i + 1).drop_last() =~= self.tickets@.take(i as int));
                assert(self.tickets@.take(i + 1).last() == self.tickets@[i as int]);
            }
            let t = &self.tickets[i];
            let matches_name = match &t.assigned_to {
                Some(n) => *n == name,
                None => false,
            };
            if matches_name {
                let ghost before = self.tickets@.take(i as int).filter(assigned_name(gm_name@));
                r.push(t);
                proof {
                    assert(r@.unref() =~= before.push(*t));
                }
            }
            i = i + 1;
        }
        proof {
            assert(self.tickets@.take(i as int) =~= self.tickets@);
        }
        r
    }

    /// Resolve a ticket. Only Assigned or Escalated tickets can be resolved;
    /// the player is told.
    pub fn resolve(&mut self, id: u64) -> (r: Result<(), TicketError>)
        requires
            old(self).wf(),
        ensures
            final(self).wf(),
            !has_ticket(old(self).ticket_list(), id) ==> r == Err::<(), TicketError>(
                TicketError::NotFound,
            ),
            has_ticket(old(self).ticket_list(), id) && old(self).ticket_with(id).state
                == TicketState::Resolved ==> r == Err::<(), TicketError>(TicketError::AlreadyResolved),
            has_ticket(old(self).ticket_list(), id) && old(self).ticket_with(id).state
                == TicketState::Open ==> r == Err::<(), TicketError>(TicketError::InvalidTransition),
            has_ticket(old(self).ticket_list(), id) && (old(self).ticket_with(id).state
                == TicketState::Assigned || old(self).ticket_with(id).state == TicketState::Escalated)
                ==> r is Ok,
            r is Err ==> *final(self) == *old(self),
            r is Ok ==> final(self).ticket_list() == old(self).ticket_list().update(
                ticket_index(old(self).ticket_list(), id),
                Ticket { state: TicketState::Resolved, ..old(self).ticket_with(id) },
            ) && final(self).next_ticket_id() == old(self).next_ticket_id() && final(self).notification_list() == old(self).notification_list().push(
                TicketNotification::Resolved { ticket_id: id, player: old(self).ticket_with(id).player },
            ),
    {
        let i = match self.find(id) {
            Some(i) => i,
            None => {
                return Err(TicketError::NotFound);
            },
        };
        match self.tickets[i].state {
            TicketState::Resolved => Err(TicketError::AlreadyResolved),
            TicketState::Assigned | TicketState::Escalated => {
                self.tickets[i].state = TicketState::Resolved;
                let player = self.tickets[i].player;
                self.notifications.push(TicketNotification::Resolved { ticket_id: id, player });
                proof {
                    assert(self.ticket_list() =~= old(self).ticket_list().update(
                        i as int,
                        Ticket { state: TicketState::Resolved, ..old(self).ticket_with(id) },
                    ));
                }
                Ok(())
            },
            TicketState::Open => Err(TicketError::InvalidTransition),
        }
    }

    /// Escalate a ticket. Only Assigned tickets can be escalated; the player is told.
    pub fn escalate(&mut self, id: u64) -> (r: Result<(), TicketError>)
        requires
            old(self).wf(),
        ensures
            final(self).wf(),
            !has_ticket(old(self).ticket_list(), id) ==> r == Err::<(), TicketError>(
                TicketError::NotFound,
            ),
            has_ticket(old(self).ticket_list(), id) && old(self).ticket_with(id).state
                == TicketState::Resolved ==> r == Err::<(), TicketError>(TicketError::AlreadyResolved),
            has_ticket(old(self).ticket_list(), id) && (old(self).ticket_with(id).state
                == TicketState::Open || old(self).ticket_with(id).state == TicketState::Escalated)
                ==> r == Err::<(), TicketError>(TicketError::InvalidTransition),
            has_ticket(old(self).ticket_list(), id) && old(self).ticket_with(id).state
                == TicketState::Assigned ==> r is Ok,
            r is Err ==> *final(self) == *old(self),
            r is Ok ==> final(self).ticket_list() == old(self).ticket_list().update(
                ticket_index(old(self).ticket_list(), id),
                Ticket { state: TicketState::Escalated, ..old(self).ticket_with(id) },
            ) && final(self).next_ticket_id() == old(self).next_ticket_id() && final(self).notification_list() == old(self).notification_list().push(
                TicketNotification::Escalated { ticket_id: id, player: old(self).ticket_with(id).player },
            ),
    {
        let i = match self.find(id) {
            Some(i) => i,
            None => {
                return Err(TicketError::NotFound);
            },
        };
        match self.tickets[i].state {
            TicketState::Assigned => {
                self.tickets[i].state = TicketState::Escalated;
                let player = self.tickets[i].player;
                self.notifications.push(TicketNotification::Escalated { ticket_id: id, player });
                proof {
                    assert(self.ticket_list() =~= old(self).ticket_list().update(
                        i as int,
                        Ticket { state: TicketState::Escalated, ..old(self).ticket_with(id) },
                    ));
                }
                Ok(())
            },
            TicketState::Resolved => Err(TicketError::AlreadyResolved),
            _ => Err(TicketError::InvalidTransition),
        }
    }

    /// GM responds to a ticket. Adds a response and notifies the player.
    pub fn respond(&mut self, id: u64, gm_name: &str, message: &str, now: u64) -> (r: Result<
        (),
        TicketError,
    >)
        requires
            old(self).wf(),
        ensures
            final(self).wf(),
            !has_ticket(old(self).ticket_list(), id) ==> r == Err::<(), TicketError>(
                TicketError::NotFound,
            ),
            has_ticket(old(self).ticket_list(), id) && old(self).ticket_with(id).state
                == TicketState::Resolved ==> r == Err::<(), TicketError>(TicketError::AlreadyResolved),
            has_ticket(old(self).ticket_list(), id) && old(self).ticket_with(id).state
                != TicketState::Resolved ==> r is Ok,
            r is Err ==> *final(self) == *old(self),
            r is Ok ==> {
                let k = ticket_index(old(self).ticket_list(), id);
                let t = old(self).ticket_with(id);
                let after = final(self).ticket_list()[k];
                let resp = after.responses@.last();
                let n = final(self).notification_list().last();
                &&& final(self).ticket_list() == old(self).ticket_list().update(k, after)
                &&& after == (Ticket { responses: after.responses, ..t })
                &&& after.responses@.drop_last() == t.responses@
                &&& after.responses@.len() == t.responses@.len() + 1
                &&& resp.gm_name@ == gm_name@ && resp.message@ == message@ && resp.timestamp == now
                &&& final(self).next_ticket_id() == old(self).next_ticket_id()
                &&& final(self).notification_list().drop_last() == old(self).notification_list()
                &&& final(self).notification_list().len() == old(self).notification_list().len() + 1
                &&& n matches TicketNotification::GmResponse { ticket_id, player, gm_name: g, message: m }
                    && ticket_id == id && player == t.player && g@ == gm_name@ && m@ == message@
            },
    {
        let i = match self.find(id) {
            Some(i) => i,
            None => {
                return Err(TicketError::NotFound);
            },
        };
        if self.tickets[i].state == TicketState::Resolved {
            return Err(TicketError::AlreadyResolved);
        }
        let player = self.tickets[i].player;
        let ghost before_responses = self.tickets@[i as int].responses@;
        self.tickets[i].responses.push(
            TicketResponse {
                gm_name: String::from_str(gm_name),
                message: String::from_str(message),
                timestamp: now,
            },
        );
        self.notifications.push(
            TicketNotification::GmResponse {
                ticket_id: id,
                player,
                gm_name: String::from_str(gm_name),
                message: String::from_str(message),
            },
        );
        proof {
            let after = self.ticket_list()[i as int];
            assert(self.ticket_list() =~= old(self).ticket_list().update(i as int, after));
            assert(after.responses@.drop_last() =~= before_responses);
            assert(self.notification_list().drop_last() =~= old(self).notification_list());
        }
        Ok(())
    }

    /// Claim the next ticket from the queue for a GM.
    pub fn claim_next(&mut self, gm_name: &str) -> (r: Result<u64, TicketError>)
        requires
            old(self).wf(),
        ensures
            final(self).wf(),
            r is Err <==> old(self).ticket_list().filter(in_state(TicketState::Open)).len() == 0,
            r is Err ==> r == Err::<u64, TicketError>(TicketError::NotFound) && *final(self) == *old(self),
            r matches Ok(id) ==> {
                &&& exists|q: Seq<&Ticket>|
                    sorted_by(q, old(self).ticket_list().filter(in_state(TicketState::Open)), |t: Ticket| queue_key(t))
                        && q.len() > 0 && q[0].id == id
                &&& assigned_now(*old(self), *final(self), id, gm_name@)
            },
    {
        let id = match self.next_in_queue() {
            Some(t) => t.id,
            None => {
                return Err(TicketError::NotFound);
            },
        };
        proof {
            let s = self.ticket_list().filter(in_state(TicketState::Open));
            let q = choose|q: Seq<&Ticket>|
                sorted_by(q, s, |t: Ticket| queue_key(t)) && q.len() > 0 && q[0].id == id;
            let keys = s.map_values(|t: Ticket| queue_key(t));
            let ix = choose|ix: Seq<int>|
                #[trigger] is_stable_order(keys, ix) && q.len() == ix.len() && forall|i: int|
                    0 <= i < q.len() ==> *(#[trigger] q[i]) == s[ix[i]];
            let t = *q[0];
            assert(t == s[ix[0]]);
            assert(0 <= ix[0] < s.len());
            self.ticket_list().lemma_filter_pred(in_state(TicketState::Open), ix[0]);
            self.ticket_list().lemma_filter_contains_rev(in_state(TicketState::Open), t);
            let k = choose|k: int| 0 <= k < self.ticket_list().len() && self.ticket_list()[k] == t;
            assert(self.ticket_list()[k].id == id);
            assert(has_ticket(self.ticket_list(), id));
            let c = ticket_index(self.ticket_list(), id);
            if c != k {
                if c < k {
                    assert(self.ticket_list()[c].id != self.ticket_list()[k].id);
                } else {
                    assert(self.ticket_list()[k].id != self.ticket_list()[c].id);
                }
            }
            assert(self.ticket_with(id).state == TicketState::Open);
        }
        match self.assign(id, gm_name) {
            Ok(()) => Ok(id),
            Err(e) => Err(e),
        }
    }

    /// The next ticket a GM should handle (highest priority, oldest).
    pub fn next_in_queue(&self) -> (r: Option<&Ticket>)
        ensures
            r is None <==> self.ticket_list().filter(in_state(TicketState::Open)).len() == 0,
            r matches Some(t) ==> exists|q: Seq<&Ticket>|
                sorted_by(q, self.ticket_list().filter(in_state(TicketState::Open)), |t: Ticket| queue_key(t))
                    && q.len() > 0 && q[0] == t,
    {
        let q = self.queue();
        if q.len() == 0 {
            proof {
                let s = self.ticket_list().filter(in_state(TicketState::Open));
                let keys = s.map_values(|t: Ticket| queue_key(t));
                let ix = choose|ix: Seq<int>|
                    #[trigger] is_stable_order(keys, ix) && q@.len() == ix.len() && forall|i: int|
                        0 <= i < q@.len() ==> *(#[trigger] q@[i]) == s[ix[i]];
                assert(keys.len() == s.len());
            }
            None
        } else {
            proof {
                let s = self.ticket_list().filter(in_state(TicketState::Open));
                let keys = s.map_values(|t: Ticket| queue_key(t));
                let ix = choose|ix: Seq<int>|
                    #[trigger] is_stable_order(keys, ix) && q@.len() == ix.len() && forall|i: int|
                        0 <= i < q@.len() ==> *(#[trigger] q@[i]) == s[ix[i]];
                assert(keys.len() == s.len());
            }
            Some(q[0])
        }
    }
}

/// The queue serves higher priorities first and, within a priority, older
/// tickets first.
pub proof fn lemma_queue_order(q: Seq<&Ticket>, open: Seq<Ticket>)
    requires
        sorted_by(q, open, |t: Ticket| queue_key(t)),
    ensures
        forall|i: int, j: int|
            0 <= i < j < q.len() ==> priority_rank(q[i].priority) > priority_rank(q[j].priority) || (
            priority_rank(q[i].priority) == priority_rank(q[j].priority) && q[i].created_at
                <= q[j].created_at),
{
    let keys = open.map_values(|t: Ticket| queue_key(t));
    let ix = choose|ix: Seq<int>|
        #[trigger] is_stable_order(keys, ix) && q.len() == ix.len() && forall|i: int|
            0 <= i < q.len() ==> *(#[trigger] q[i]) == open[ix[i]];
    assert forall|i: int, j: int| 0 <= i < j < q.len() implies priority_rank(q[i].priority)
        > priority_rank(q[j].priority) || (priority_rank(q[i].priority) == priority_rank(
        q[j].priority) && q[i].created_at <= q[j].created_at) by {
        assert(keys[ix[i]] <= keys[ix[j]]);
        assert(*q[i] == open[ix[i]] && *q[j] == open[ix[j]]);
        assert(keys[ix[i]] == queue_key(*q[i]) && keys[ix[j]] == queue_key(*q[j]));
    }
}

/// A player's history lists newer tickets first.
pub proof fn lemma_history_newest_first(r: Seq<&Ticket>, tickets: Seq<Ticket>)
    requires
        sorted_by(r, tickets, |t: Ticket| history_key(t)),
    ensures
        forall|i: int, j: int| 0 <= i < j < r.len() ==> r[i].created_at >= r[j].created_at,
{
    let keys = tickets.map_values(|t: Ticket| history_key(t));
    let ix = choose|ix: Seq<int>|
        #[trigger] is_stable_order(keys, ix) && r.len() == ix.len() && forall|i: int|
            0 <= i < r.len() ==> *(#[trigger] r[i]) == tickets[ix[i]];
    assert forall|i: int, j: int| 0 <= i < j < r.len() implies r[i].created_at >= r[j].created_at by {
        assert(keys[ix[i]] <= keys[ix[j]]);
        assert(*r[i] == tickets[ix[i]] && *r[j] == tickets[ix[j]]);
    }
}

} // verus!
