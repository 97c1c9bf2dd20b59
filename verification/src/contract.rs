//! The registry itself: the append-only record log, the alias directory,
//! the access checks and the two read patterns, all behind one state
//! object.

use vstd::prelude::*;

use crate::types::{bytes_eq, EmailError, EmailMessage, EmailMessageView, Identity, User, UserView};

verus! {

/// The alias directory described by a run of bindings: later registrations
/// win, so the directory is the map that inserting each binding in order
/// produces.
pub open spec fn aliases_to_map(s: Seq<UserView>) -> Map<Seq<u8>, Identity>
    decreases s.len(),
{
    if s.len() == 0 {
        Map::empty()
    } else {
        aliases_to_map(s.drop_last()).insert(s.last().alias, s.last().address)
    }
}

/// Picks the messages addressed to one recipient: the predicate the
/// recipient-scoped read filters the log with.
pub open spec fn addressed_to(recipient: Identity) -> spec_fn(EmailMessageView) -> bool {
    |m: EmailMessageView| m.to == recipient
}

/// What an alias resolves to: the bound identity, unless no binding exists
/// or the binding names the zero identity.
pub open spec fn resolve_spec(aliases: Map<Seq<u8>, Identity>, alias: Seq<u8>) -> Option<Identity> {
    if aliases.contains_key(alias) && aliases[alias] != Identity::zero_spec() {
        Some(aliases[alias])
    } else {
        None
    }
}

/// Bindings past index `i` that all miss a key leave the directory's view
/// of that key to the first `i` bindings alone.
proof fn lemma_alias_map_suffix_miss(s: Seq<UserView>, key: Seq<u8>, i: int)
    requires
        0 <= i <= s.len(),
        forall|j: int| i <= j < s.len() ==> (#[trigger] s[j]).alias != key,
    ensures
        aliases_to_map(s).contains_key(key) == aliases_to_map(s.take(i)).contains_key(key),
        aliases_to_map(s).contains_key(key) ==> aliases_to_map(s)[key] == aliases_to_map(
            s.take(i),
        )[key],
    decreases s.len() - i,
{
    if i == s.len() {
        assert(s.take(i) =~= s);
    } else {
        let shorter = s.drop_last();
        assert(s.last().alias != key);
        lemma_alias_map_suffix_miss(shorter, key, i);
        assert(shorter.take(i) =~= s.take(i));
    }
}

/// The registry: one owner fixed at creation, the ordered log of stored
/// messages, and the alias bindings in registration order.
pub struct EmailContract {
    owner: Identity,
    emails: Vec<EmailMessage>,
    users: Vec<User>,
}

impl EmailContract {
    /// The identity fixed at creation; the only one granted full reads.
    pub closed spec fn owner_spec(&self) -> Identity {
        self.owner
    }

    /// The record log as the sequence of message values, in append order.
    pub closed spec fn emails_spec(&self) -> Seq<EmailMessageView> {
        self.emails@.map_values(|m: EmailMessage| m@)
    }

    /// Every alias binding ever registered, in registration order.
    pub closed spec fn users_spec(&self) -> Seq<UserView> {
        self.users@.map_values(|u: User| u@)
    }

    /// The alias directory: each alias bound to its newest registrant.
    pub open spec fn aliases_spec(&self) -> Map<Seq<u8>, Identity> {
        aliases_to_map(self.users_spec())
    }

    /// Creates the registry; the creating caller becomes the owner.
    pub fn init(caller: Identity) -> (c: EmailContract)
        ensures
            c.owner_spec() == caller,
            c.emails_spec() == Seq::<EmailMessageView>::empty(),
            c.aliases_spec() == Map::<Seq<u8>, Identity>::empty(),
    {
        let c = EmailContract { owner: caller, emails: Vec::new(), users: Vec::new() };
        proof {
            assert(c.emails_spec() =~= Seq::<EmailMessageView>::empty());
            assert(c.users_spec() =~= Seq::<UserView>::empty());
        }
        c
    }

    /// Appends a message to the record log and returns its index: the
    /// count before the append. Always succeeds; no other part of the
    /// state moves. The timestamp is the one the hosting environment
    /// supplied for this operation.
    pub fn store_email(
        &mut self,
        from: Identity,
        to: Identity,
        subject: Vec<u8>,
        body: Vec<u8>,
        timestamp: u64,
    ) -> (email_id: u64)
        ensures
            email_id == old(self).emails_spec().len(),
            final(self).emails_spec() == old(self).emails_spec().push(
                (EmailMessageView { from, to, subject: subject@, body: body@, timestamp }),
            ),
            final(self).owner_spec() == old(self).owner_spec(),
            final(self).aliases_spec() == old(self).aliases_spec(),
    {
        let email_id = self.emails.len() as u64;
        let email = EmailMessage { from, to, subject, body, timestamp };
        self.emails.push(email);
        proof {
            broadcast use Seq::lemma_push_map_commute;

            assert(self.emails_spec() =~= old(self).emails_spec().push(
                EmailMessageView {
                    from,
                    to,
                    subject: subject@,
                    body: body@,
                    timestamp,
                },
            ));
        }
        email_id
    }

    /// Binds an alias to the caller's own identity, overwriting any prior
    /// binding for that alias: the newest registration wins. The bound
    /// identity is always the caller performing the call.
    pub fn register(&mut self, alias: Vec<u8>, caller: Identity)
        ensures
            final(self).aliases_spec() == old(self).aliases_spec().insert(alias@, caller),
            final(self).emails_spec() == old(self).emails_spec(),
            final(self).owner_spec() == old(self).owner_spec(),
    {
        let user = User { alias, address: caller };
        self.users.push(user);
        proof {
            broadcast use Seq::lemma_push_map_commute;

            let u = UserView { alias: alias@, address: caller };
            assert(self.users_spec() =~= old(self).users_spec().push(u));
            assert(self.users_spec().drop_last() =~= old(self).users_spec());
        }
    }

    /// Looks an alias up in the directory: the binding of its newest
    /// registration, or nothing where the alias was never registered.
    pub fn users(&self, alias: &Vec<u8>) -> (r: Option<User>)
        ensures
            match r {
                Some(u) => self.aliases_spec().contains_key(alias@) && u@ == (UserView {
                    alias: alias@,
                    address: self.aliases_spec()[alias@],
                }),
                None => !self.aliases_spec().contains_key(alias@),
            },
    {
        let ghost s = self.users_spec();
        let mut i = self.users.len();
        while i > 0
            invariant
                i <= self.users@.len(),
                s == self.users_spec(),
                forall|j: int| i <= j < s.len() ==> (#[trigger] s[j]).alias != alias@,
            decreases i,
        {
            i = i - 1;
            if bytes_eq(&self.users[i].alias, alias) {
                proof {
                    lemma_alias_map_suffix_miss(s, alias@, i + 1);
                    assert(s.take(i + 1).drop_last() =~= s.take(i as int));
                    assert(s.take(i + 1).last() == s[i as int]);
                }
                return Some(self.users[i].clone());
            }
        }
        proof {
            lemma_alias_map_suffix_miss(s, alias@, 0);
            assert(s.take(0) =~= Seq::<UserView>::empty());
        }
        None
    }

    /// Resolves an alias to the identity it is bound to. Fails with
    /// `UnknownAlias` when no binding exists, or when the binding names
    /// the zero identity; never answers with a default identity.
    pub fn get_address(&self, alias: &Vec<u8>) -> (r: Result<Identity, EmailError>)
        ensures
            match resolve_spec(self.aliases_spec(), alias@) {
                Some(addr) => r == Ok::<Identity, EmailError>(addr),
                None => r == Err::<Identity, EmailError>(EmailError::UnknownAlias),
            },
    {
        match self.users(alias) {
            Some(user) => {
                if user.address.id != 0 {
                    Ok(user.address)
                } else {
                    Err(EmailError::UnknownAlias)
                }
            },
            None => Err(EmailError::UnknownAlias),
        }
    }

    /// The owner identity, readable by anyone.
    pub fn owner(&self) -> (r: Identity)
        ensures
            r == self.owner_spec(),
    {
        self.owner
    }

    /// The number of stored messages, readable by anyone.
    pub fn get_email_count(&self) -> (r: u64)
        ensures
            r == self.emails_spec().len(),
    {
        self.emails.len() as u64
    }

    /// Gates a privileged read: passes exactly the owner, and rejects any
    /// other caller with `Unauthorized`.
    pub fn require_owner(&self, caller: Identity) -> (r: Result<(), EmailError>)
        ensures
            caller == self.owner_spec() ==> r == Ok::<(), EmailError>(()),
            caller != self.owner_spec() ==> r == Err::<(), EmailError>(EmailError::Unauthorized),
    {
        if caller == self.owner {
            Ok(())
        } else {
            Err(EmailError::Unauthorized)
        }
    }

    /// Returns the stored message at `email_id`, unmodified. Owner only:
    /// any other caller is rejected with `Unauthorized`, and an index at
    /// or past the count with `OutOfRange`; nothing else fails.
    pub fn get_email(&self, email_id: u64, caller: Identity) -> (r: Result<EmailMessage, EmailError>)
        ensures
            caller != self.owner_spec() ==> r == Err::<EmailMessage, EmailError>(
                EmailError::Unauthorized,
            ),
            caller == self.owner_spec() && email_id >= self.emails_spec().len() ==> r == Err::<
                EmailMessage,
                EmailError,
            >(EmailError::OutOfRange),
            caller == self.owner_spec() && email_id < self.emails_spec().len() ==> r is Ok
                && r->Ok_0@ == self.emails_spec()[email_id as int],
    {
        if let Err(e) = self.require_owner(caller) {
            return Err(e);
        }
        if email_id >= self.emails.len() as u64 {
            return Err(EmailError::OutOfRange);
        }
        Ok(self.emails[email_id as usize].clone())
    }

    /// Returns every stored message, in append order; empty when nothing
    /// was stored yet. Owner only: any other caller is rejected with
    /// `Unauthorized`.
    pub fn get_all_emails(&self, caller: Identity) -> (r: Result<Vec<EmailMessage>, EmailError>)
        ensures
            caller == self.owner_spec() ==> r is Ok && r->Ok_0@.map_values(|m: EmailMessage| m@)
                == self.emails_spec(),
            caller != self.owner_spec() ==> r == Err::<Vec<EmailMessage>, EmailError>(
                EmailError::Unauthorized,
            ),
    {
        if let Err(e) = self.require_owner(caller) {
            return Err(e);
        }
        let mut result: Vec<EmailMessage> = Vec::new();
        let mut i: usize = 0;
        while i < self.emails.len()
            invariant
                i <= self.emails@.len(),
                result@.map_values(|m: EmailMessage| m@) == self.emails_spec().take(i as int),
            decreases self.emails@.len() - i,
        {
            result.push(self.emails[i].clone());
            i = i + 1;
            proof {
                broadcast use Seq::lemma_push_map_commute;

                assert(self.emails_spec().take(i as int) =~= self.emails_spec().take(
                    i - 1,
                ).push(self.emails_spec()[i - 1]));
                assert(result@.map_values(|m: EmailMessage| m@) =~= self.emails_spec().take(
                    i as int,
                ));
            }
        }
        proof {
            assert(self.emails_spec().take(self.emails@.len() as int) =~= self.emails_spec());
        }
        Ok(result)
    }

    /// Returns exactly the stored messages whose recipient equals the one
    /// asked for, in append order; empty when none match. Allowed to the
    /// owner and to that recipient alone: any other caller is rejected
    /// with `Unauthorized`.
    pub fn get_emails_by_recipient(&self, recipient: Identity, caller: Identity) -> (r: Result<
        Vec<EmailMessage>,
        EmailError,
    >)
        ensures
            caller == self.owner_spec() || caller == recipient ==> r is Ok
                && r->Ok_0@.map_values(|m: EmailMessage| m@) == self.emails_spec().filter(
                addressed_to(recipient),
            ),
            caller != self.owner_spec() && caller != recipient ==> r == Err::<
                Vec<EmailMessage>,
                EmailError,
            >(EmailError::Unauthorized),
    {
        if !(caller == self.owner || caller == recipient) {
            return Err(EmailError::Unauthorized);
        }
        let mut result: Vec<EmailMessage> = Vec::new();
        let mut i: usize = 0;
        while i < self.emails.len()
            invariant
                i <= self.emails@.len(),
                result@.map_values(|m: EmailMessage| m@) == self.emails_spec().take(
                    i as int,
                ).filter(addressed_to(recipient)),
            decreases self.emails@.len() - i,
        {
            let email = &self.emails[i];
            proof {
                broadcast use Seq::lemma_push_map_commute;
                broadcast use Seq::lemma_filter_push;

                assert(self.emails_spec().take(i + 1) =~= self.emails_spec().take(
                    i as int,
                ).push(self.emails_spec()[i as int]));
            }
            if email.to == recipient {
                result.push(email.clone());
                proof {
                    assert(result@.map_values(|m: EmailMessage| m@) =~= self.emails_spec().take(
                        i as int,
                    ).filter(addressed_to(recipient)).push(
                        self.emails_spec()[i as int],
                    ));
                }
            }
            i = i + 1;
        }
        proof {
            assert(self.emails_spec().take(self.emails@.len() as int) =~= self.emails_spec());
        }
        Ok(result)
    }

    /// Appends a message addressed by alias: resolves the alias first and
    /// stores the message with the resolved identity as its recipient,
    /// returning the new index. Fails with `UnknownAlias` when resolution
    /// fails, and then appends nothing: the whole state stays as it was.
    pub fn store_email_by_alias(
        &mut self,
        from: Identity,
        to: Vec<u8>,
        subject: Vec<u8>,
        body: Vec<u8>,
        timestamp: u64,
    ) -> (r: Result<u64, EmailError>)
        ensures
            final(self).owner_spec() == old(self).owner_spec(),
            final(self).aliases_spec() == old(self).aliases_spec(),
            match resolve_spec(old(self).aliases_spec(), to@) {
                Some(addr) => r == Ok::<u64, EmailError>(old(self).emails_spec().len() as u64)
                    && final(self).emails_spec() == old(self).emails_spec().push(
                    (EmailMessageView {
                        from,
                        to: addr,
                        subject: subject@,
                        body: body@,
                        timestamp,
                    }),
                ),
                None => r == Err::<u64, EmailError>(EmailError::UnknownAlias) && *final(self)
                    == *old(self),
            },
    {
        let address = match self.get_address(&to) {
            Ok(a) => a,
            Err(e) => {
                return Err(e);
            },
        };
        let email_id = self.store_email(from, address, subject, body, timestamp);
        Ok(email_id)
    }
}

} // verus!
