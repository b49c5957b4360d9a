//! The values that the store holds: users, challenges and credentials.
use vstd::prelude::*;

verus! {

/// Identifies a principal.
pub type UserId = String;

/// A single-use value issued to start a registration or an authentication.
#[derive(Clone, Debug)]
pub struct Challenge(pub Vec<u8>);

impl View for Challenge {
    type V = Seq<u8>;

    open spec fn view(&self) -> Seq<u8> {
        self.0@
    }
}

/// An enrolled authenticator bound to a user.
#[derive(Clone, Debug)]
pub struct Credential {
    /// The handle that the authenticator gave for this credential.
    pub cred_id: Vec<u8>,
    /// The encoded public key of the credential.
    pub public_key: Vec<u8>,
    /// How often the authenticator reports having used it.
    pub counter: u32,
    /// Whether the user was verified when it was enrolled.
    pub verified: bool,
}

/// What a credential is, field by field.
pub struct CredentialModel {
    pub cred_id: Seq<u8>,
    pub public_key: Seq<u8>,
    pub counter: u32,
    pub verified: bool,
}

impl CredentialModel {
    /// The same credential with its counter set to `counter`.
    pub open spec fn with_counter(self, counter: u32) -> CredentialModel {
        CredentialModel { counter, ..self }
    }
}

impl View for Credential {
    type V = CredentialModel;

    open spec fn view(&self) -> CredentialModel {
        CredentialModel {
            cred_id: self.cred_id@,
            public_key: self.public_key@,
            counter: self.counter,
            verified: self.verified,
        }
    }
}

fn bytes_equal(a: &Vec<u8>, b: &Vec<u8>) -> (r: bool)
    ensures
        r == (a@ == b@),
{
    if a.len() != b.len() {
        return false;
    }
    let mut i: usize = 0;
    while i < a.len()
        invariant
            a.len() == b.len(),
            i <= a.len(),
            forall|j: int| 0 <= j < i ==> a@[j] == b@[j],
        decreases a.len() - i,
    {
        if a[i] != b[i] {
            return false;
        }
        i = i + 1;
    }
    assert(a@ =~= b@);
    true
}

fn copy_bytes(a: &Vec<u8>) -> (r: Vec<u8>)
    ensures
        r@ == a@,
{
    let mut r: Vec<u8> = Vec::new();
    let mut i: usize = 0;
    while i < a.len()
        invariant
            i <= a.len(),
            r@ == a@.subrange(0, i as int),
        decreases a.len() - i,
    {
        r.push(a[i]);
        i = i + 1;
        assert(r@ =~= a@.subrange(0, i as int));
    }
    assert(a@.subrange(0, a.len() as int) =~= a@);
    r
}

impl Credential {
    /// A copy of this credential whose counter is `counter`.
    pub fn with_counter(&self, counter: u32) -> (r: Credential)
        ensures
            r@ == self@.with_counter(counter),
    {
        Credential {
            cred_id: copy_bytes(&self.cred_id),
            public_key: copy_bytes(&self.public_key),
            counter,
            verified: self.verified,
        }
    }
}

impl PartialEq for Credential {
    fn eq(&self, other: &Credential) -> (r: bool) {
        self.counter == other.counter && self.verified == other.verified && bytes_equal(
            &self.cred_id,
            &other.cred_id,
        ) && bytes_equal(&self.public_key, &other.public_key)
    }
}

impl vstd::std_specs::cmp::PartialEqSpecImpl for Credential {
    open spec fn obeys_eq_spec() -> bool {
        true
    }

    open spec fn eq_spec(&self, other: &Credential) -> bool {
        self@ == other@
    }
}

} // verus!
