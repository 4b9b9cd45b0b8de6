//! In-game mail system: send items, gold, and messages between players.
//!
//! Ref: AzerothCore `Mail.h`, `MailHandler.cpp`.
use vstd::prelude::*;

verus! {

/// An item attached to a mail message.
#[derive(Debug, Clone, Copy, PartialEq, Eq, Structural)]
pub struct MailAttachment {
    pub item_id: u32,
    pub count: u16,
}

/// A mail message.
#[derive(Debug, PartialEq)]
pub struct Mail {
    /// Unique mail ID.
    pub id: u64,
    /// Sender character name (or "Auction House", "System", etc).
    pub sender: String,
    /// Recipient character name.
    pub recipient: String,
    /// Subject line.
    pub subject: String,
    /// Message body.
    pub body: String,
    /// Attached items.
    pub attachments: Vec<MailAttachment>,
    /// Gold attached in copper.
    pub gold: u32,
    /// Cash on delivery amount in copper (0 = no COD).
    pub cod: u32,
    /// Server timestamp when sent (seconds since epoch).
    pub sent_at: u64,
    /// Server timestamp when the mail becomes available to the recipient.
    pub delivers_at: u64,
    /// Server timestamp when the mail expires.
    pub expires_at: u64,
    /// Whether the mail has been read.
    pub read: bool,
    /// Whether attachments/gold have been collected.
    pub collected: bool,
}

fn copy_attachments(v: &Vec<MailAttachment>) -> (r: Vec<MailAttachment>)
    ensures
        r@ == v@,
{
    let mut r: Vec<MailAttachment> = Vec::new();
    let mut i: usize = 0;
    while i < v.len()
        invariant
            i <= v.len(),
            r@ == v@.take(i as int),
        decreases v.len() - i,
    {
        r.push(v[i]);
        assert(v@.take(i + 1) =~= v@.take(i as int).push(v@[i as int]));
        i = i + 1;
    }
    assert(v@.take(i as int) =~= v@);
    r
}

impl Clone for Mail {
    fn clone(&self) -> (r: Self)
        ensures
            r.id == self.id,
            r.sender@ == self.sender@,
            r.recipient@ == self.recipient@,
            r.subject@ == self.subject@,
            r.body@ == self.body@,
            r.attachments@ == self.attachments@,
            r.gold == self.gold,
            r.cod == self.cod,
            r.sent_at == self.sent_at,
            r.delivers_at == self.delivers_at,
            r.expires_at == self.expires_at,
            r.read == self.read,
            r.collected == self.collected,
    {
        Mail {
            id: self.id,
            sender: self.sender.clone(),
            recipient: self.recipient.clone(),
            subject: self.subject.clone(),
            body: self.body.clone(),
            attachments: copy_attachments(&self.attachments),
            gold: self.gold,
            cod: self.cod,
            sent_at: self.sent_at,
            delivers_at: self.delivers_at,
            expires_at: self.expires_at,
            read: self.read,
            collected: self.collected,
        }
    }
}

/// Cost to send a mail in copper (base 30c per WoW standard).
pub const MAIL_SEND_COST: u32 = 30;

/// Additional cost per attachment.
pub const MAIL_ATTACHMENT_COST: u32 = 30;

/// Maximum attachments per mail.
pub const MAX_ATTACHMENTS: usize = 12;

/// Delivery delay for mails with items or gold (1 hour in seconds).
pub const ITEM_DELIVERY_DELAY: u64 = 3600;

/// Default mail expiry in days.
pub const MAIL_EXPIRY_DAYS: u32 = 30;

/// Seconds in a day.
pub const SECONDS_PER_DAY: u64 = 86400;

/// Compute the delivery delay for a mail.
///
/// - Same account: instant (0 delay).
/// - Text only (no items, no gold): instant.
/// - Items or gold: 1 hour delay.
pub fn delivery_delay(has_attachments: bool, has_gold: bool, same_account: bool) -> (r: u64)
    ensures
        r == if !same_account && (has_attachments || has_gold) {
            3600u64
        } else {
            0u64
        },
{
    if same_account {
        return 0;
    }
    if has_attachments || has_gold {
        ITEM_DELIVERY_DELAY
    } else {
        0
    }
}

/// Why sending a mail failed.
#[derive(Debug, Clone, PartialEq, Eq, Structural)]
pub enum MailError {
    /// Too many attachments.
    TooManyAttachments,
    /// Recipient not found.
    RecipientNotFound,
    /// Can't mail to yourself.
    SelfMail,
    /// Not enough gold to cover send cost + attached gold.
    NotEnoughGold,
}

/// Calculate the cost to send a mail (in copper): 30 plus 30 per attachment.
pub fn send_cost(attachment_count: usize) -> (r: u32)
    requires
        30 + (attachment_count as u32) * 30 <= u32::MAX,
    ensures
        r == 30 + (attachment_count as u32) * 30,
{
    MAIL_SEND_COST + (attachment_count as u32) * MAIL_ATTACHMENT_COST
}

/// Parameters for creating a new mail.
pub struct NewMail {
    pub id: u64,
    pub sender: String,
    pub recipient: String,
    pub subject: String,
    pub body: String,
    pub attachments: Vec<MailAttachment>,
    pub gold: u32,
    pub cod: u32,
    pub now: u64,
    pub delivery_delay: u64,
    pub expiry_days: u32,
}

/// Whether a new mail passes validation (not to oneself, at most 12 attachments).
pub open spec fn new_mail_valid(p: NewMail) -> bool {
    p.sender@ != p.recipient@ && p.attachments@.len() <= 12
}

/// Validate and create a mail. Returns the mail or an error.
pub fn create_mail(params: NewMail) -> (r: Result<Mail, MailError>)
    requires
        new_mail_valid(params) ==> params.now + params.delivery_delay + params.expiry_days * 86400
            <= u64::MAX,
    ensures
        params.sender@ == params.recipient@ ==> r == Err::<Mail, MailError>(MailError::SelfMail),
        params.sender@ != params.recipient@ && params.attachments@.len() > 12 ==> r == Err::<
            Mail,
            MailError,
        >(MailError::TooManyAttachments),
        new_mail_valid(params) <==> r is Ok,
        r matches Ok(m) ==> {
            &&& m.id == params.id
            &&& m.sender@ == params.sender@
            &&& m.recipient@ == params.recipient@
            &&& m.subject@ == params.subject@
            &&& m.body@ == params.body@
            &&& m.attachments@ == params.attachments@
            &&& m.gold == params.gold
            &&& m.cod == params.cod
            &&& m.sent_at == params.now
            &&& m.delivers_at == params.now + params.delivery_delay
            &&& m.expires_at == params.now + params.delivery_delay + params.expiry_days * 86400
            &&& !m.read
            &&& !m.collected
        },
{
    if params.sender == params.recipient {
        return Err(MailError::SelfMail);
    }
    if params.attachments.len() > MAX_ATTACHMENTS {
        return Err(MailError::TooManyAttachments);
    }
    let delivers_at = params.now + params.delivery_delay;
    let expires_at = delivers_at + (params.expiry_days as u64) * SECONDS_PER_DAY;
    Ok(
        Mail {
            id: params.id,
            sender: params.sender,
            recipient: params.recipient,
            subject: params.subject,
            body: params.body,
            attachments: params.attachments,
            gold: params.gold,
            cod: params.cod,
            sent_at: params.now,
            delivers_at,
            expires_at,
            read: false,
            collected: false,
        },
    )
}

/// Result of collecting items/gold from a mail.
#[derive(Debug, PartialEq)]
pub struct CollectResult {
    pub attachments: Vec<MailAttachment>,
    /// Gold received by the collector.
    pub gold: u32,
    /// COD amount paid by the collector (0 if no COD).
    pub cod_paid: u32,
    /// Original sender name to receive COD payment (None if no COD).
    pub cod_recipient: Option<String>,
}

/// Why collecting from a mail failed.
#[derive(Debug, Clone, PartialEq, Eq, Structural)]
pub enum CollectError {
    NotFound,
    AlreadyCollected,
    /// Recipient doesn't have enough gold to pay the COD.
    NotEnoughGoldForCod { required: u32 },
}

/// Whether a mail sequence holds a mail with the given id.
pub open spec fn has_mail(mails: Seq<Mail>, mail_id: u64) -> bool {
    exists|k: int| 0 <= k < mails.len() && mails[k].id == mail_id
}

/// Index of the first mail with the given id (meaningful when `has_mail`).
pub open spec fn mail_index(mails: Seq<Mail>, mail_id: u64) -> int {
    choose|k: int|
        0 <= k < mails.len() && mails[k].id == mail_id && forall|m: int|
            0 <= m < k ==> mails[m].id != mail_id
}

/// Whether a mail has expired by `now` and was never collected.
pub open spec fn expired_uncollected(m: Mail, now: u64) -> bool {
    m.expires_at <= now && !m.collected
}

/// Mails that `expire(now)` takes out of the mailbox.
pub open spec fn is_expired_at(now: u64) -> spec_fn(Mail) -> bool {
    |m: Mail| expired_uncollected(m, now)
}

/// Mails that `expire(now)` keeps.
pub open spec fn is_kept_at(now: u64) -> spec_fn(Mail) -> bool {
    |m: Mail| !expired_uncollected(m, now)
}

/// Mails whose id differs from `mail_id`.
pub open spec fn other_than(mail_id: u64) -> spec_fn(Mail) -> bool {
    |m: Mail| m.id != mail_id
}

/// Unread mails.
pub open spec fn is_unread() -> spec_fn(Mail) -> bool {
    |m: Mail| !m.read
}

/// Mails delivered by `now`.
pub open spec fn delivered_by(now: u64) -> spec_fn(Mail) -> bool {
    |m: Mail| now >= m.delivers_at
}

/// The first mail with a given id is well defined whenever some mail has it.
pub proof fn lemma_mail_index(mails: Seq<Mail>, mail_id: u64)
    requires
        has_mail(mails, mail_id),
    ensures
        0 <= mail_index(mails, mail_id) < mails.len(),
        mails[mail_index(mails, mail_id)].id == mail_id,
        forall|m: int| 0 <= m < mail_index(mails, mail_id) ==> mails[m].id != mail_id,
    decreases mails.len(),
{
    let p = mails.drop_last();
    if has_mail(p, mail_id) {
        lemma_mail_index(p, mail_id);
        let k = mail_index(p, mail_id);
        assert(mails[k] == p[k]);
        assert(forall|m: int| 0 <= m < k ==> mails[m] == p[m]);
    } else {
        let k = mails.len() - 1;
        assert(mails[k].id == mail_id) by {
            let w = choose|w: int| 0 <= w < mails.len() && mails[w].id == mail_id;
            if w < k {
                assert(p[w] == mails[w]);
            }
        }
        assert forall|m: int| 0 <= m < k implies mails[m].id != mail_id by {
            assert(p[m] == mails[m]);
        }
    }
}

/// Whether `after` is `before` with only the flags `read`/`collected`, the
/// attachments and the gold/COD amounts possibly changed.
pub open spec fn same_letter(before: Mail, after: Mail) -> bool {
    &&& after.id == before.id
    &&& after.sender == before.sender
    &&& after.recipient == before.recipient
    &&& after.subject == before.subject
    &&& after.body == before.body
    &&& after.sent_at == before.sent_at
    &&& after.delivers_at == before.delivers_at
    &&& after.expires_at == before.expires_at
}

/// A player's mailbox.
#[derive(Debug, PartialEq)]
pub struct Mailbox {
    pub mails: Vec<Mail>,
}

impl Default for Mailbox {
    fn default() -> (r: Self)
        ensures
            r.mails@ == Seq::<Mail>::empty(),
    {
        Mailbox { mails: Vec::new() }
    }
}

impl Mailbox {
    /// Deliver a mail to the mailbox.
    pub fn deliver(&mut self, mail: Mail)
        ensures
            final(self).mails@ == old(self).mails@.push(mail),
    {
        self.mails.push(mail);
    }

    fn find(&self, mail_id: u64) -> (r: Option<usize>)
        ensures
            r is None <==> !has_mail(self.mails@, mail_id),
            r matches Some(i) ==> i == mail_index(self.mails@, mail_id) && i < self.mails@.len()
                && self.mails@[i as int].id == mail_id,
    {
        let mut i: usize = 0;
        while i < self.mails.len()
            invariant
                i <= self.mails.len(),
                forall|k: int| 0 <= k < i ==> self.mails@[k].id != mail_id,
            decreases self.mails.len() - i,
        {
            if self.mails[i].id == mail_id {
                let ghost s = self.mails@;
                assert(0 <= i < s.len() && s[i as int].id == mail_id && forall|m: int|
                    0 <= m < i ==> s[m].id != mail_id);
                let ghost fi = mail_index(s, mail_id);
                assert(fi == i) by {
                    if fi < i {
                        assert(s[fi].id != mail_id);
                    } else if fi > i {
                        assert(s[i as int].id == mail_id);
                    }
                }
                return Some(i);
            }
            i = i + 1;
        }
        None
    }

    /// Mark a mail as read (the first mail with that id; nothing if none).
    pub fn mark_read(&mut self, mail_id: u64)
        ensures
            !has_mail(old(self).mails@, mail_id) ==> final(self).mails@ == old(self).mails@,
            has_mail(old(self).mails@, mail_id) ==> {
                let k = mail_index(old(self).mails@, mail_id);
                let m = old(self).mails@[k];
                &&& final(self).mails@.len() == old(self).mails@.len()
                &&& forall|j: int|
                    0 <= j < old(self).mails@.len() && j != k ==> final(self).mails@[j]
                        == old(self).mails@[j]
                &&& final(self).mails@[k] == Mail { read: true, ..m }
            },
    {
        match self.find(mail_id) {
            Some(i) => {
                let mut m = self.mails.remove(i);
                m.read = true;
                self.mails.insert(i, m);
            },
            None => {},
        }
    }

    /// Collect the attachments and gold of a mail.
    ///
    /// If the mail has a COD, the recipient must pay before items are released;
    /// the result names the sender who receives the COD payment.
    pub fn collect(&mut self, mail_id: u64, recipient_gold: u32) -> (r: Result<
        CollectResult,
        CollectError,
    >)
        ensures
            !has_mail(old(self).mails@, mail_id) ==> r == Err::<CollectResult, CollectError>(
                CollectError::NotFound,
            ),
            has_mail(old(self).mails@, mail_id) ==> {
                let k = mail_index(old(self).mails@, mail_id);
                let m = old(self).mails@[k];
                &&& m.collected ==> r == Err::<CollectResult, CollectError>(
                    CollectError::AlreadyCollected,
                )
                &&& !m.collected && m.cod > 0 && recipient_gold < m.cod ==> r == Err::<
                    CollectResult,
                    CollectError,
                >(CollectError::NotEnoughGoldForCod { required: m.cod })
                &&& (r is Ok <==> !m.collected && !(m.cod > 0 && recipient_gold < m.cod))
                &&& r matches Ok(c) ==> {
                    &&& c.attachments@ == m.attachments@
                    &&& c.gold == m.gold
                    &&& c.cod_paid == m.cod
                    &&& (m.cod > 0 <==> c.cod_recipient is Some)
                    &&& c.cod_recipient matches Some(s) ==> s@ == m.sender@
                    &&& final(self).mails@.len() == old(self).mails@.len()
                    &&& forall|j: int|
                        0 <= j < old(self).mails@.len() && j != k ==> final(self).mails@[j]
                            == old(self).mails@[j]
                    &&& same_letter(m, final(self).mails@[k])
                    &&& final(self).mails@[k].read
                    &&& final(self).mails@[k].collected
                    &&& final(self).mails@[k].attachments@ == Seq::<MailAttachment>::empty()
                    &&& final(self).mails@[k].gold == 0
                    &&& final(self).mails@[k].cod == 0
                }
            },
            r is Err ==> final(self).mails@ == old(self).mails@,
    {
        let i = match self.find(mail_id) {
            Some(i) => i,
            None => {
                return Err(CollectError::NotFound);
            },
        };
        if self.mails[i].collected {
            return Err(CollectError::AlreadyCollected);
        }
        if self.mails[i].cod > 0 && recipient_gold < self.mails[i].cod {
            return Err(CollectError::NotEnoughGoldForCod { required: self.mails[i].cod });
        }
        let mut mail = self.mails.remove(i);
        mail.collected = true;
        mail.read = true;
        let mut attachments: Vec<MailAttachment> = Vec::new();
        std::mem::swap(&mut attachments, &mut mail.attachments);
        let gold = mail.gold;
        let cod_paid = mail.cod;
        let cod_recipient = if cod_paid > 0 {
            Some(mail.sender.clone())
        } else {
            None
        };
        mail.gold = 0;
        mail.cod = 0;
        self.mails.insert(i, mail);
        Ok(CollectResult { attachments, gold, cod_paid, cod_recipient })
    }

    /// Delete a mail (must be read and collected). Removes every mail with that id.
    pub fn delete(&mut self, mail_id: u64) -> (r: bool)
        ensures
            r == exists|k: int|
                0 <= k < old(self).mails@.len() && old(self).mails@[k].id == mail_id
                    && old(self).mails@[k].read && old(self).mails@[k].collected,
            r ==> final(self).mails@ == old(self).mails@.filter(other_than(mail_id)),
            !r ==> final(self).mails@ == old(self).mails@,
    {
        let mut can_delete = false;
        let mut i: usize = 0;
        while i < self.mails.len()
            invariant
                i <= self.mails.len(),
                can_delete == exists|k: int|
                    0 <= k < i && self.mails@[k].id == mail_id && self.mails@[k].read
                        && self.mails@[k].collected,
            decreases self.mails.len() - i,
        {
            if self.mails[i].id == mail_id && self.mails[i].read && self.mails[i].collected {
                can_delete = true;
            }
            i = i + 1;
        }
        if can_delete {
            proof {
                reveal(Seq::filter);
            }
            let mut taken: Vec<Mail> = Vec::new();
            std::mem::swap(&mut taken, &mut self.mails);
            let ghost all = taken@;
            let mut kept: Vec<Mail> = Vec::new();
            let mut idx: usize = 0;
            while taken.len() > 0
                invariant
                    idx <= all.len(),
                    all.len() <= usize::MAX,
                    taken@ == all.subrange(idx as int, all.len() as int),
                    kept@ == all.take(idx as int).filter(other_than(mail_id)),
                decreases taken.len(),
            {
                proof {
                    reveal(Seq::filter);
                }
                let m = taken.remove(0);
                assert(all.take(idx + 1).drop_last() =~= all.take(idx as int));
                assert(all.take(idx + 1).last() == m);
                if m.id != mail_id {
                    kept.push(m);
                }
                idx = idx + 1;
                assert(taken@ =~= all.subrange(idx as int, all.len() as int));
            }
            assert(all.take(idx as int) =~= all);
            self.mails = kept;
        }
        can_delete
    }

    /// Remove expired, uncollected mails. Returns them (for return-to-sender);
    /// the remaining mails keep their order.
    pub fn expire(&mut self, now: u64) -> (expired: Vec<Mail>)
        ensures
            expired@ == old(self).mails@.filter(is_expired_at(now)),
            final(self).mails@ == old(self).mails@.filter(is_kept_at(now)),
    {
        proof {
            reveal(Seq::filter);
        }
        let mut taken: Vec<Mail> = Vec::new();
        std::mem::swap(&mut taken, &mut self.mails);
        let ghost all = taken@;
        proof {
            assert(taken@.len() == taken.len());
        }
        let mut kept: Vec<Mail> = Vec::new();
        let mut gone: Vec<Mail> = Vec::new();
        let mut idx: usize = 0;
        while taken.len() > 0
            invariant
                idx <= all.len(),
                all.len() <= usize::MAX,
                taken@ == all.subrange(idx as int, all.len() as int),
                kept@ == all.take(idx as int).filter(is_kept_at(now)),
                gone@ == all.take(idx as int).filter(is_expired_at(now)),
            decreases taken.len(),
        {
            proof {
                reveal(Seq::filter);
            }
            let m = taken.remove(0);
            assert(all.take(idx + 1).drop_last() =~= all.take(idx as int));
            assert(all.take(idx + 1).last() == m);
            if m.expires_at <= now && !m.collected {
                gone.push(m);
            } else {
                kept.push(m);
            }
            idx = idx + 1;
            assert(taken@ =~= all.subrange(idx as int, all.len() as int));
        }
        assert(all.take(idx as int) =~= all);
        self.mails = kept;
        gone
    }

    /// Count of unread mails.
    pub fn unread_count(&self) -> (r: usize)
        ensures
            r == self.mails@.filter(is_unread()).len(),
    {
        proof {
            reveal(Seq::filter);
        }
        let mut n: usize = 0;
        let mut i: usize = 0;
        while i < self.mails.len()
            invariant
                i <= self.mails.len(),
                n == self.mails@.take(i as int).filter(is_unread()).len(),
                n <= i,
            decreases self.mails.len() - i,
        {
            assert(self.mails@.take(i + 1).drop_last() =~= self.mails@.take(i as int));
            proof {
                reveal(Seq::filter);
                self.mails@.take(i as int).lemma_filter_len(is_unread());
            }
            if !self.mails[i].read {
                n = n + 1;
            }
            i = i + 1;
        }
        assert(self.mails@.take(i as int) =~= self.mails@);
        n
    }

    /// Mails that have been delivered (delivery delay elapsed), in order.
    pub fn delivered_mails(&self, now: u64) -> (r: Vec<&Mail>)
        ensures
            r@.map_values(|m: &Mail| *m) == self.mails@.filter(delivered_by(now)),
    {
        proof {
            reveal(Seq::filter);
        }
        let mut out: Vec<&Mail> = Vec::new();
        let mut i: usize = 0;
        while i < self.mails.len()
            invariant
                i <= self.mails.len(),
                out@.map_values(|m: &Mail| *m) == self.mails@.take(i as int).filter(delivered_by(now)),
            decreases self.mails.len() - i,
        {
            assert(self.mails@.take(i + 1).drop_last() =~= self.mails@.take(i as int));
            proof {
                reveal(Seq::filter);
            }
            let ghost before = out@;
            let m = &self.mails[i];
            if now >= m.delivers_at {
                out.push(m);
                assert(out@.map_values(|m: &Mail| *m) =~= before.map_values(|m: &Mail| *m).push(*m));
            }
            i = i + 1;
        }
        assert(self.mails@.take(i as int) =~= self.mails@);
        out
    }

    /// Whether a specific mail is delivered and accessible.
    pub fn is_delivered(&self, mail_id: u64, now: u64) -> (r: bool)
        ensures
            r == exists|k: int|
                0 <= k < self.mails@.len() && self.mails@[k].id == mail_id && now
                    >= self.mails@[k].delivers_at,
    {
        let mut i: usize = 0;
        while i < self.mails.len()
            invariant
                i <= self.mails.len(),
                forall|k: int|
                    0 <= k < i ==> !(self.mails@[k].id == mail_id && now >= self.mails@[k].delivers_at),
            decreases self.mails.len() - i,
        {
            if self.mails[i].id == mail_id && now >= self.mails[i].delivers_at {
                return true;
            }
            i = i + 1;
        }
        false
    }
}

/// Collecting twice never pays out twice: after a successful collect the mail is
/// marked collected, which is exactly the condition for `AlreadyCollected`.
pub proof fn lemma_collect_marks_collected(before: Seq<Mail>, after: Seq<Mail>, mail_id: u64)
    requires
        has_mail(before, mail_id),
        after.len() == before.len(),
        forall|j: int|
            0 <= j < before.len() && j != mail_index(before, mail_id) ==> after[j] == before[j],
        same_letter(before[mail_index(before, mail_id)], after[mail_index(before, mail_id)]),
        after[mail_index(before, mail_id)].collected,
    ensures
        has_mail(after, mail_id),
        mail_index(after, mail_id) == mail_index(before, mail_id),
        after[mail_index(after, mail_id)].collected,
{
    lemma_mail_index(before, mail_id);
    let k = mail_index(before, mail_id);
    assert(after[k].id == mail_id);
    assert(0 <= k < after.len() && after[k].id == mail_id && forall|m: int|
        0 <= m < k ==> after[m].id != mail_id);
    let k2 = mail_index(after, mail_id);
    assert(k2 == k) by {
        if k2 < k {
            assert(after[k2].id != mail_id);
        } else if k2 > k {
            assert(after[k].id == mail_id);
        }
    }
}

/// Expiring splits the mailbox: every mail is either returned as expired or
/// kept, and the two counts add up to the mailbox size.
pub proof fn lemma_expire_partitions(mails: Seq<Mail>, now: u64)
    ensures
        mails.filter(is_expired_at(now)).len() + mails.filter(is_kept_at(now)).len() == mails.len(),
    decreases mails.len(),
{
    reveal(Seq::filter);
    if mails.len() > 0 {
        lemma_expire_partitions(mails.drop_last(), now);
    }
}

/// The mail returned to its sender (`None` for text-only mails).
pub open spec fn returns_anything(expired: Mail) -> bool {
    expired.attachments@.len() > 0 || expired.gold > 0
}

/// Create a return-to-sender mail from an expired mail.
///
/// The original sender becomes the recipient. Attachments and gold are
/// preserved. The returned mail has a new ID and fresh 30-day expiry.
/// Text-only mails (no attachments, no gold) are not returned.
pub fn return_to_sender(expired: &Mail, new_id: u64, now: u64) -> (r: Option<Mail>)
    requires
        returns_anything(*expired) ==> now + 30 * 86400 <= u64::MAX,
    ensures
        r is Some <==> returns_anything(*expired),
        r matches Some(m) ==> {
            &&& m.id == new_id
            &&& m.sender@ == "System"@
            &&& m.recipient@ == expired.sender@
            &&& m.subject@ == "Returned: "@ + expired.subject@
            &&& m.body@ == Seq::<char>::empty()
            &&& m.attachments@ == expired.attachments@
            &&& m.gold == expired.gold
            &&& m.cod == 0
            &&& m.sent_at == now
            &&& m.delivers_at == now
            &&& m.expires_at == now + 30 * 86400
            &&& !m.read
            &&& !m.collected
        },
{
    if expired.attachments.len() == 0 && expired.gold == 0 {
        return None;
    }
    let subject = String::from_str("Returned: ").concat(expired.subject.as_str());
    Some(
        Mail {
            id: new_id,
            sender: String::from_str("System"),
            recipient: expired.sender.clone(),
            subject,
            body: String::new(),
            attachments: copy_attachments(&expired.attachments),
            gold: expired.gold,
            cod: 0,
            sent_at: now,
            delivers_at: now,
            expires_at: now + (MAIL_EXPIRY_DAYS as u64) * SECONDS_PER_DAY,
            read: false,
            collected: false,
        },
    )
}

// --- Auction House mail ---

/// Whether `m` is an Auction House mail to `recipient` sent at `now`: instant
/// delivery, 30-day expiry, no COD, unread and uncollected.
pub open spec fn is_ah_mail(m: Mail, id: u64, recipient: Seq<char>, now: u64) -> bool {
    &&& m.id == id
    &&& m.sender@ == "Auction House"@
    &&& m.recipient@ == recipient
    &&& m.body@ == Seq::<char>::empty()
    &&& m.cod == 0
    &&& m.sent_at == now
    &&& m.delivers_at == now
    &&& m.expires_at == now + 30 * 86400
    &&& !m.read
    &&& !m.collected
}

fn ah_mail(
    id: u64,
    recipient: &str,
    subject: String,
    gold: u32,
    attachments: Vec<MailAttachment>,
    now: u64,
) -> (m: Mail)
    requires
        now + 30 * 86400 <= u64::MAX,
    ensures
        is_ah_mail(m, id, recipient@, now),
        m.subject@ == subject@,
        m.gold == gold,
        m.attachments@ == attachments@,
{
    Mail {
        id,
        sender: String::from_str("Auction House"),
        recipient: String::from_str(recipient),
        subject,
        body: String::new(),
        attachments,
        gold,
        cod: 0,
        sent_at: now,
        delivers_at: now,
        expires_at: now + (MAIL_EXPIRY_DAYS as u64) * SECONDS_PER_DAY,
        read: false,
        collected: false,
    }
}

/// The Auction House cut of a sale: 5%, rounded down.
pub open spec fn spec_ah_cut(sale_price: u32) -> int {
    sale_price * 5 / 100
}

/// Calculate the AH cut from a sale price (5%, rounded down).
pub fn ah_cut(sale_price: u32) -> (r: u32)
    ensures
        r == spec_ah_cut(sale_price),
{
    sale_price / 20
}

/// Create an AH mail for a successful sale (gold to seller, minus AH cut).
pub fn ah_sold_mail(id: u64, seller: &str, item_name: &str, sale_price: u32, now: u64) -> (m: Mail)
    requires
        now + 30 * 86400 <= u64::MAX,
    ensures
        is_ah_mail(m, id, seller@, now),
        m.subject@ == "Auction successful: "@ + item_name@,
        m.gold == sale_price - spec_ah_cut(sale_price),
        m.attachments@ == Seq::<MailAttachment>::empty(),
{
    let cut = ah_cut(sale_price);
    let payout = sale_price - cut;
    ah_mail(
        id,
        seller,
        String::from_str("Auction successful: ").concat(item_name),
        payout,
        Vec::new(),
        now,
    )
}

/// Create an AH mail for an expired auction (item returned to seller).
pub fn ah_expired_mail(id: u64, seller: &str, item_id: u32, count: u16, now: u64) -> (m: Mail)
    requires
        now + 30 * 86400 <= u64::MAX,
    ensures
        is_ah_mail(m, id, seller@, now),
        m.subject@ == "Auction expired"@,
        m.gold == 0,
        m.attachments@ == seq![MailAttachment { item_id, count }],
{
    let mut attachments: Vec<MailAttachment> = Vec::new();
    attachments.push(MailAttachment { item_id, count });
    ah_mail(id, seller, String::from_str("Auction expired"), 0, attachments, now)
}

/// Create an AH mail for an outbid notification (bid refund, no attachments).
pub fn ah_outbid_mail(id: u64, bidder: &str, item_name: &str, bid_refund: u32, now: u64) -> (m: Mail)
    requires
        now + 30 * 86400 <= u64::MAX,
    ensures
        is_ah_mail(m, id, bidder@, now),
        m.subject@ == "Outbid on "@ + item_name@,
        m.gold == bid_refund,
        m.attachments@ == Seq::<MailAttachment>::empty(),
{
    ah_mail(
        id,
        bidder,
        String::from_str("Outbid on ").concat(item_name),
        bid_refund,
        Vec::new(),
        now,
    )
}

/// Create an AH mail for a won auction (item to buyer).
pub fn ah_won_mail(id: u64, buyer: &str, item_id: u32, count: u16, now: u64) -> (m: Mail)
    requires
        now + 30 * 86400 <= u64::MAX,
    ensures
        is_ah_mail(m, id, buyer@, now),
        m.subject@ == "Auction won"@,
        m.gold == 0,
        m.attachments@ == seq![MailAttachment { item_id, count }],
{
    let mut attachments: Vec<MailAttachment> = Vec::new();
    attachments.push(MailAttachment { item_id, count });
    ah_mail(id, buyer, String::from_str("Auction won"), 0, attachments, now)
}

/// The AH cut is 5% of the sale price rounded down: the largest amount whose
/// twentyfold does not exceed the price.
pub proof fn lemma_ah_cut_is_five_percent(sale_price: u32)
    ensures
        20 * spec_ah_cut(sale_price) <= sale_price < 20 * spec_ah_cut(sale_price) + 20,
{
}

/// The seller's payout and the AH cut always add up to the sale price.
pub proof fn lemma_ah_cut_splits_price(sale_price: u32)
    ensures
        0 <= spec_ah_cut(sale_price) <= sale_price,
        (sale_price - spec_ah_cut(sale_price)) + spec_ah_cut(sale_price) == sale_price,
{
}

} // verus!
