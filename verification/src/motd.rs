//! Message of the Day and autobroadcast system.
//!
//! MOTD is displayed to players on login. Configurable via admin IPC.
//! Autobroadcast sends periodic server-wide messages.
use vstd::prelude::*;
use vstd::string::StrSliceExecFns;

verus! {

/// Maximum MOTD length in characters.
pub const MAX_MOTD_LEN: usize = 500;

/// Server Message of the Day.
///
/// Displayed to every player on login.
#[derive(Debug, Clone, PartialEq, Eq)]
pub struct Motd {
    /// The message text. Empty string means no MOTD.
    pub message: String,
    /// Server timestamp when the MOTD was last updated.
    pub updated_at: u64,
}

impl Default for Motd {
    fn default() -> (m: Self)
        ensures
            m.message@.len() == 0,
            m.updated_at == 0,
    {
        Motd { message: String::new(), updated_at: 0 }
    }
}

/// Why a MOTD operation failed.
#[derive(Debug, Clone, Copy, PartialEq, Eq, Structural)]
pub enum MotdError {
    /// Message exceeds maximum length.
    TooLong,
}

impl Motd {
    /// Set the MOTD message. Returns error if too long.
    pub fn set(&mut self, message: &str, now: u64) -> (r: Result<(), MotdError>)
        ensures
            r is Err <==> message@.len() > MAX_MOTD_LEN,
            r is Err ==> r == Err::<(), MotdError>(MotdError::TooLong) && final(self).message@ == old(
                self,
            ).message@ && final(self).updated_at == old(self).updated_at,
            r is Ok ==> final(self).message@ == message@ && final(self).updated_at == now,
    {
        if message.unicode_len() > MAX_MOTD_LEN {
            return Err(MotdError::TooLong);
        }
        self.message = String::from_str(message);
        self.updated_at = now;
        Ok(())
    }

    /// Clear the MOTD.
    pub fn clear(&mut self, now: u64)
        ensures
            final(self).message@.len() == 0,
            final(self).updated_at == now,
    {
        self.message = String::new();
        self.updated_at = now;
    }

    /// Whether there is an active MOTD.
    pub fn is_set(&self) -> (b: bool)
        ensures
            b == (self.message@.len() != 0),
    {
        !self.message.as_str().is_empty()
    }
}

// --- Autobroadcast ---

/// Default autobroadcast interval in seconds (15 minutes).
pub const DEFAULT_BROADCAST_INTERVAL: u64 = 900;

/// Periodic server-wide message broadcaster.
///
/// Cycles through a list of messages at a configurable interval.
/// The server checks `should_broadcast()` each tick and sends the
/// returned message to all players.
#[derive(Debug, Clone, PartialEq, Eq)]
pub struct Autobroadcast {
    /// Messages to cycle through.
    pub messages: Vec<String>,
    /// Seconds between broadcasts.
    pub interval: u64,
    /// Whether broadcasting is enabled.
    pub enabled: bool,
    /// Index of the next message to send.
    next_index: usize,
    /// Timestamp of the last broadcast.
    last_broadcast: u64,
}

impl Default for Autobroadcast {
    fn default() -> (a: Self)
        ensures
            a.message_list().len() == 0,
            a.interval_secs() == 0,
            !a.is_enabled(),
            a.next_message() == 0,
            a.last_sent() == 0,
    {
        Autobroadcast {
            messages: Vec::new(),
            interval: 0,
            enabled: false,
            next_index: 0,
            last_broadcast: 0,
        }
    }
}

/// `a - b`, or 0 when `b` is larger.
pub open spec fn elapsed(now: u64, since: u64) -> int {
    if now >= since {
        now - since
    } else {
        0
    }
}

impl Autobroadcast {
    /// The messages in rotation.
    pub closed spec fn message_list(&self) -> Seq<String> {
        self.messages@
    }

    /// Seconds between broadcasts.
    pub closed spec fn interval_secs(&self) -> u64 {
        self.interval
    }

    /// Whether broadcasting is enabled.
    pub closed spec fn is_enabled(&self) -> bool {
        self.enabled
    }

    /// Position of the next message to send.
    pub closed spec fn next_message(&self) -> usize {
        self.next_index
    }

    /// When the last broadcast went out.
    pub closed spec fn last_sent(&self) -> u64 {
        self.last_broadcast
    }

    /// A broadcast is due at `now`.
    pub open spec fn due(&self, now: u64) -> bool {
        self.is_enabled() && self.message_list().len() > 0 && elapsed(now, self.last_sent())
            >= self.interval_secs()
    }

    /// Create a new autobroadcast with default interval, disabled.
    pub fn new() -> (a: Self)
        ensures
            a.message_list().len() == 0,
            a.interval_secs() == DEFAULT_BROADCAST_INTERVAL,
            !a.is_enabled(),
            a.next_message() == 0,
            a.last_sent() == 0,
    {
        Autobroadcast {
            messages: Vec::new(),
            interval: DEFAULT_BROADCAST_INTERVAL,
            enabled: false,
            next_index: 0,
            last_broadcast: 0,
        }
    }

    /// Add a message to the rotation.
    pub fn add_message(&mut self, message: String)
        ensures
            final(self).message_list() == old(self).message_list().push(message),
            final(self).interval_secs() == old(self).interval_secs(),
            final(self).is_enabled() == old(self).is_enabled(),
            final(self).next_message() == old(self).next_message(),
            final(self).last_sent() == old(self).last_sent(),
    {
        self.messages.push(message);
    }

    /// Remove a message by index. Returns the removed message. When the next
    /// position falls off the end of a non-empty rotation it wraps to 0.
    pub fn remove_message(&mut self, index: usize) -> (r: Option<String>)
        ensures
            index >= old(self).message_list().len() ==> r is None && *final(self) == *old(self),
            index < old(self).message_list().len() ==> {
                let rest = old(self).message_list().remove(index as int);
                &&& r == Some(old(self).message_list()[index as int])
                &&& final(self).message_list() == rest
                &&& final(self).next_message() == (if old(self).next_message() >= rest.len()
                    && rest.len() > 0 {
                    0
                } else {
                    old(self).next_message()
                })
                &&& final(self).interval_secs() == old(self).interval_secs()
                &&& final(self).is_enabled() == old(self).is_enabled()
                &&& final(self).last_sent() == old(self).last_sent()
            },
    {
        if index >= self.messages.len() {
            return None;
        }
        let removed = self.messages.remove(index);
        if self.next_index >= self.messages.len() && self.messages.len() > 0 {
            self.next_index = 0;
        }
        Some(removed)
    }

    /// Check if it's time to broadcast. Returns the message if so, and
    /// moves on to the next message in the rotation.
    ///
    /// Call this each server tick with the current timestamp.
    pub fn should_broadcast(&mut self, now: u64) -> (r: Option<&str>)
        requires
            old(self).due(now) ==> old(self).next_message() < old(self).message_list().len(),
        ensures
            !old(self).due(now) ==> r is None && *final(self) == *old(self),
            old(self).due(now) ==> {
                &&& r matches Some(m) && m@ == old(self).message_list()[old(self).next_message() as int]@
                &&& final(self).last_sent() == now
                &&& final(self).next_message() == (old(self).next_message() + 1)
                    % (old(self).message_list().len() as int)
                &&& final(self).message_list() == old(self).message_list()
                &&& final(self).interval_secs() == old(self).interval_secs()
                &&& final(self).is_enabled() == old(self).is_enabled()
            },
    {
        if !self.enabled || self.messages.len() == 0 {
            return None;
        }
        if now.saturating_sub(self.last_broadcast) < self.interval {
            return None;
        }
        self.last_broadcast = now;
        let i = self.next_index;
        self.next_index = (self.next_index + 1) % self.messages.len();
        Some(self.messages[i].as_str())
    }

    /// Number of messages in the rotation.
    pub fn message_count(&self) -> (n: usize)
        ensures
            n == self.message_list().len(),
    {
        self.messages.len()
    }
}

/// Broadcasting from a valid position leaves the next position valid,
/// so the rotation never runs past its end while messages are only added.
pub proof fn lemma_rotation_stays_in_bounds(next: int, len: int)
    requires
        0 <= next < len,
    ensures
        0 <= (next + 1) % len < len,
{
}

} // verus!
