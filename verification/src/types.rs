//! The registry's data: identities, stored messages, alias bindings and
//! the failure kinds of the boundary operations.

use vstd::prelude::*;

verus! {

/// A participant in the registry: a caller, a sender, a recipient or the
/// owner. Identities are opaque and only ever compared for equality; the
/// all-zero value is the sentinel that an alias binding never resolves to.
#[derive(Clone, Copy, PartialEq, Eq, Structural, Debug, Hash)]
pub struct Identity {
    pub id: u64,
}

impl Identity {
    /// The sentinel identity: an alias bound to it resolves to nothing.
    pub open spec fn zero_spec() -> Identity {
        Identity { id: 0 }
    }

    /// The sentinel identity as a runtime value.
    pub fn zero() -> (r: Identity)
        ensures
            r == Identity::zero_spec(),
    {
        Identity { id: 0 }
    }
}

/// Why a call was rejected. Every failure is terminal and leaves the
/// registry unchanged.
#[derive(Clone, Copy, PartialEq, Eq, Structural, Debug)]
pub enum EmailError {
    /// The caller fails the access check of a privileged read.
    Unauthorized,
    /// A message index at or past the current count.
    OutOfRange,
    /// An alias with no binding, or one bound to the zero identity.
    UnknownAlias,
}

impl EmailError {
    /// The human-readable reason attached to each failure kind.
    pub fn reason(&self) -> (r: &'static str)
        ensures
            *self == EmailError::Unauthorized ==> r@
                == "Apenas o proprietário ou o recebedor pode visualizar estes emails"@,
            *self == EmailError::OutOfRange ==> r@ == "Email ID inválido"@,
            *self == EmailError::UnknownAlias ==> r@ == "Usuário não encontrado"@,
    {
        match self {
            EmailError::Unauthorized => "Apenas o proprietário ou o recebedor pode visualizar estes emails",
            EmailError::OutOfRange => "Email ID inválido",
            EmailError::UnknownAlias => "Usuário não encontrado",
        }
    }
}

/// The mathematical value of a stored message: both byte buffers read as
/// sequences.
#[verifier::ext_equal]
pub ghost struct EmailMessageView {
    pub from: Identity,
    pub to: Identity,
    pub subject: Seq<u8>,
    pub body: Seq<u8>,
    pub timestamp: u64,
}

/// A stored message. Immutable once appended; identified by the dense,
/// zero-based index assigned at append time.
#[derive(Debug)]
pub struct EmailMessage {
    pub from: Identity,
    pub to: Identity,
    pub subject: Vec<u8>,
    pub body: Vec<u8>,
    pub timestamp: u64,
}

impl View for EmailMessage {
    type V = EmailMessageView;

    open spec fn view(&self) -> EmailMessageView {
        EmailMessageView {
            from: self.from,
            to: self.to,
            subject: self.subject@,
            body: self.body@,
            timestamp: self.timestamp,
        }
    }
}

impl Clone for EmailMessage {
    fn clone(&self) -> (r: Self)
        ensures
            r@ == self@,
    {
        EmailMessage {
            from: self.from,
            to: self.to,
            subject: clone_bytes(&self.subject),
            body: clone_bytes(&self.body),
            timestamp: self.timestamp,
        }
    }
}

/// The mathematical value of an alias binding.
#[verifier::ext_equal]
pub ghost struct UserView {
    pub alias: Seq<u8>,
    pub address: Identity,
}

/// An alias binding: a human-chosen byte-string label and the identity it
/// was bound to by the registering caller.
#[derive(Debug)]
pub struct User {
    pub alias: Vec<u8>,
    pub address: Identity,
}

impl View for User {
    type V = UserView;

    open spec fn view(&self) -> UserView {
        UserView { alias: self.alias@, address: self.address }
    }
}

impl Clone for User {
    fn clone(&self) -> (r: Self)
        ensures
            r@ == self@,
    {
        User { alias: clone_bytes(&self.alias), address: self.address }
    }
}

/// Copies a byte buffer; the copy holds exactly the bytes of the original.
pub fn clone_bytes(v: &Vec<u8>) -> (r: Vec<u8>)
    ensures
        r@ == v@,
{
    let mut r: Vec<u8> = Vec::new();
    let mut i: usize = 0;
    while i < v.len()
        invariant
            i <= v.len(),
            r@ == v@.subrange(0, i as int),
        decreases v.len() - i,
    {
        r.push(v[i]);
        i = i + 1;
        proof {
            assert(r@ =~= v@.subrange(0, i as int));
        }
    }
    proof {
        assert(v@.subrange(0, v.len() as int) =~= v@);
    }
    r
}

/// Compares two byte buffers by contents.
pub fn bytes_eq(a: &Vec<u8>, b: &Vec<u8>) -> (r: bool)
    ensures
        r == (a@ == b@),
{
    if a.len() != b.len() {
        return false;
    }
    let mut i: usize = 0;
    while i < a.len()
        invariant
            i <= a.len(),
            a@.len() == b@.len(),
            forall|j: int| 0 <= j < i ==> a@[j] == b@[j],
        decreases a.len() - i,
    {
        if a[i] != b[i] {
            return false;
        }
        i = i + 1;
    }
    proof {
        assert(a@ =~= b@);
    }
    true
}

} // verus!
