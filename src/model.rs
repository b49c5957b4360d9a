//! The state of a store of challenges and credentials, as plain values, and
//! what each operation makes of it.
use vstd::prelude::*;
use crate::credential_set::without_first;
use crate::proto::CredentialModel;

verus! {

/// The state of a store, as plain values.
pub struct StoreModel {
    /// The pending challenge of each user that has one.
    pub challenges: Map<Seq<char>, Seq<u8>>,
    /// The credentials of each user that has ever had one enrolled.
    pub credentials: Map<Seq<char>, Seq<CredentialModel>>,
    /// The relying party's display name.
    pub rp_name: Seq<char>,
    /// The relying party's id, most often a domain.
    pub rp_id: Seq<char>,
    /// The relying party's origin: scheme, host and port.
    pub rp_origin: Seq<char>,
}

impl StoreModel {
    /// A store that holds nothing yet.
    pub open spec fn fresh(rp_name: Seq<char>, rp_id: Seq<char>, rp_origin: Seq<char>) -> Self {
        StoreModel {
            challenges: Map::empty(),
            credentials: Map::empty(),
            rp_name,
            rp_id,
            rp_origin,
        }
    }

    /// The challenge pending for `u`, if any.
    pub open spec fn pending_challenge(self, u: Seq<char>) -> Option<Seq<u8>> {
        if self.challenges.contains_key(u) {
            Some(self.challenges[u])
        } else {
            None
        }
    }

    /// `c` is now the one challenge pending for `u`.
    pub open spec fn with_challenge(self, u: Seq<char>, c: Seq<u8>) -> Self {
        StoreModel { challenges: self.challenges.insert(u, c), ..self }
    }

    /// No challenge is pending for `u` any more.
    pub open spec fn without_challenge(self, u: Seq<char>) -> Self {
        StoreModel { challenges: self.challenges.remove(u), ..self }
    }

    /// Whether `u` has a credential set at all.
    pub open spec fn knows_user(self, u: Seq<char>) -> bool {
        self.credentials.contains_key(u)
    }

    /// The credentials of `u`; none for a user never seen.
    pub open spec fn credentials_of(self, u: Seq<char>) -> Seq<CredentialModel> {
        if self.credentials.contains_key(u) {
            self.credentials[u]
        } else {
            Seq::empty()
        }
    }

    /// Whether `u` holds a credential equal to `c`.
    pub open spec fn has_credential(self, u: Seq<char>, c: CredentialModel) -> bool {
        self.credentials_of(u).contains(c)
    }

    /// `c` appended to the credentials of `u`.
    pub open spec fn with_credential(self, u: Seq<char>, c: CredentialModel) -> Self {
        StoreModel {
            credentials: self.credentials.insert(u, self.credentials_of(u).push(c)),
            ..self
        }
    }

    /// The first credential of `u` equal to `c` taken out, and a copy of `c`
    /// with counter `n` appended; nothing changes for a user never seen.
    pub open spec fn with_counter(self, u: Seq<char>, c: CredentialModel, n: u32) -> Self {
        if self.knows_user(u) {
            StoreModel {
                credentials: self.credentials.insert(
                    u,
                    without_first(self.credentials[u], c).push(c.with_counter(n)),
                ),
                ..self
            }
        } else {
            self
        }
    }

    /// The first credential of `u` equal to `c` taken out; nothing changes for
    /// a user never seen.
    pub open spec fn without_credential(self, u: Seq<char>, c: CredentialModel) -> Self {
        if self.knows_user(u) {
            StoreModel {
                credentials: self.credentials.insert(u, without_first(self.credentials[u], c)),
                ..self
            }
        } else {
            self
        }
    }
}

/// An operation that changes a store, with its arguments as plain values.
pub enum StoreOp {
    PersistChallenge(Seq<char>, Seq<u8>),
    RetrieveChallenge(Seq<char>),
    PersistCredential(Seq<char>, CredentialModel),
    UpdateCounter(Seq<char>, CredentialModel, u32),
    ReportInvalidCounter(Seq<char>, CredentialModel),
}

impl StoreOp {
    /// Whether this operation persists a challenge for `u`.
    pub open spec fn persists_challenge_for(self, u: Seq<char>) -> bool {
        match self {
            StoreOp::PersistChallenge(v, _) => v == u,
            _ => false,
        }
    }
}

impl StoreModel {
    /// The store after `op`; an update or a report for a user with no
    /// credential set changes nothing.
    pub open spec fn step(self, op: StoreOp) -> Self {
        match op {
            StoreOp::PersistChallenge(u, c) => self.with_challenge(u, c),
            StoreOp::RetrieveChallenge(u) => self.without_challenge(u),
            StoreOp::PersistCredential(u, c) => self.with_credential(u, c),
            StoreOp::UpdateCounter(u, c, n) => self.with_counter(u, c, n),
            StoreOp::ReportInvalidCounter(u, c) => self.without_credential(u, c),
        }
    }

    /// The store after each of `ops`, in order.
    pub open spec fn run(self, ops: Seq<StoreOp>) -> Self
        decreases ops.len(),
    {
        if ops.len() == 0 {
            self
        } else {
            self.run(ops.drop_last()).step(ops.last())
        }
    }
}

} // verus!
