//! The registry's laws: what holds across runs of operations, proved over
//! the same sequences and maps the operations' own contracts speak of.

use vstd::prelude::*;

use crate::contract::{addressed_to, resolve_spec};
use crate::types::{EmailMessageView, Identity};

verus! {

/// Appending one message grows the log by exactly one: the count rises by
/// one, every earlier message keeps its index and value, and the new
/// message stands at the old count. Chained over a run of appends, the
/// count after n appends is n and the message at index i is the one
/// appended i-th, in append order.
pub proof fn lemma_append_preserves_log(log: Seq<EmailMessageView>, m: EmailMessageView)
    ensures
        log.push(m).len() == log.len() + 1,
        forall|i: int| 0 <= i < log.len() ==> log.push(m)[i] == log[i],
        log.push(m)[log.len() as int] == m,
{
}

/// The recipient-filtered view of the log holds exactly the messages
/// addressed to that recipient: every element of the filtered sequence is
/// addressed to the recipient and stands in the log, and every log entry
/// addressed to the recipient stands in the filtered sequence. Order is
/// the log's own: the filtered sequence is `filter`, which keeps append
/// order.
pub proof fn lemma_recipient_filter_exact(log: Seq<EmailMessageView>, recipient: Identity)
    ensures
        forall|i: int|
            0 <= i < log.filter(addressed_to(recipient)).len() ==> (#[trigger] log.filter(
                addressed_to(recipient),
            )[i]).to == recipient,
        forall|i: int|
            0 <= i < log.filter(addressed_to(recipient)).len() ==> log.contains(
                #[trigger] log.filter(addressed_to(recipient))[i],
            ),
        forall|i: int|
            0 <= i < log.len() && (#[trigger] log[i]).to == recipient ==> log.filter(
                addressed_to(recipient),
            ).contains(log[i]),
{
    broadcast use Seq::lemma_filter_pred;
    broadcast use Seq::lemma_filter_contains;
    broadcast use Seq::lemma_filter_contains_rev;

    let pred = addressed_to(recipient);
    let filtered = log.filter(pred);
    assert forall|i: int| 0 <= i < filtered.len() implies log.contains(#[trigger] filtered[i]) by {
        assert(filtered.contains(filtered[i]));
    }
}

/// Registering an alias makes it resolve to the registrant: after `alias`
/// is bound to `who`, resolution on that alias yields `who`, whatever the
/// alias was bound to before — re-registration rebinds, and the newest
/// registrant wins. The one registrant an alias can never resolve to is
/// the zero identity; and no other alias is disturbed by the binding.
pub proof fn lemma_register_resolves(
    aliases: Map<Seq<u8>, Identity>,
    alias: Seq<u8>,
    who: Identity,
)
    ensures
        who != Identity::zero_spec() ==> resolve_spec(aliases.insert(alias, who), alias)
            == Some(who),
        who == Identity::zero_spec() ==> resolve_spec(aliases.insert(alias, who), alias)
            is None,
        forall|other: Seq<u8>|
            other != alias ==> #[trigger] resolve_spec(aliases.insert(alias, who), other)
                == resolve_spec(aliases, other),
{
}

} // verus!
