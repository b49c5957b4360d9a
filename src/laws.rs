//! What holds of the store across several operations.
use vstd::prelude::*;
use crate::credential_set::lemma_without_appended;
use crate::model::{StoreModel, StoreOp};
use crate::proto::CredentialModel;

verus! {

/// A challenge that was just persisted is handed out by the next retrieval,
/// and a retrieval right after that finds nothing.
pub proof fn law_challenge_handed_out_once(s: StoreModel, u: Seq<char>, c: Seq<u8>)
    ensures
        s.with_challenge(u, c).pending_challenge(u) == Some(c),
        s.with_challenge(u, c).without_challenge(u).pending_challenge(u) is None,
{
}

/// A new store has no challenge pending for any user.
pub proof fn law_fresh_store_has_no_challenge(
    rp_name: Seq<char>,
    rp_id: Seq<char>,
    rp_origin: Seq<char>,
    u: Seq<char>,
)
    ensures
        StoreModel::fresh(rp_name, rp_id, rp_origin).pending_challenge(u) is None,
{
}

/// A user with no challenge pending still has none after any operations
/// that persist no challenge for that user; so a store that never had a
/// challenge persisted for a user hands out none for it.
pub proof fn law_no_challenge_without_persist(s: StoreModel, ops: Seq<StoreOp>, u: Seq<char>)
    requires
        s.pending_challenge(u) is None,
        forall|i: int| 0 <= i < ops.len() ==> !(#[trigger] ops[i]).persists_challenge_for(u),
    ensures
        s.run(ops).pending_challenge(u) is None,
    decreases ops.len(),
{
    if ops.len() > 0 {
        let init = ops.drop_last();
        assert forall|i: int| 0 <= i < init.len() implies !(#[trigger] init[i]).persists_challenge_for(
            u,
        ) by {
            assert(init[i] == ops[i]);
        }
        law_no_challenge_without_persist(s, init, u);
        assert(!ops[ops.len() - 1].persists_challenge_for(u));
    }
}

/// A new store hands out no challenge for a user after any operations that
/// persist no challenge for that user.
pub proof fn law_never_persisted_challenge_is_absent(
    rp_name: Seq<char>,
    rp_id: Seq<char>,
    rp_origin: Seq<char>,
    ops: Seq<StoreOp>,
    u: Seq<char>,
)
    requires
        forall|i: int| 0 <= i < ops.len() ==> !(#[trigger] ops[i]).persists_challenge_for(u),
    ensures
        StoreModel::fresh(rp_name, rp_id, rp_origin).run(ops).pending_challenge(u) is None,
{
    law_no_challenge_without_persist(StoreModel::fresh(rp_name, rp_id, rp_origin), ops, u);
}

/// A second challenge persisted for a user before retrieval replaces the
/// first: only the second is handed out, and only once.
pub proof fn law_second_challenge_replaces_first(
    s: StoreModel,
    u: Seq<char>,
    c1: Seq<u8>,
    c2: Seq<u8>,
)
    ensures
        s.with_challenge(u, c1).with_challenge(u, c2).pending_challenge(u) == Some(c2),
        s.with_challenge(u, c1).with_challenge(u, c2).without_challenge(u).pending_challenge(
            u,
        ) is None,
{
}

/// After a credential is persisted for a user, it exists for that user; a
/// different credential that the user did not hold still does not.
pub proof fn law_persisted_credential_exists(
    s: StoreModel,
    u: Seq<char>,
    c: CredentialModel,
    c2: CredentialModel,
)
    ensures
        s.with_credential(u, c).has_credential(u, c),
        c2 != c && !s.has_credential(u, c2) ==> !s.with_credential(u, c).has_credential(u, c2),
{
    let t = s.credentials_of(u).push(c);
    assert(t[t.len() - 1] == c);
    if c2 != c && !s.has_credential(u, c2) && t.contains(c2) {
        let j = choose|j: int| 0 <= j < t.len() && t[j] == c2;
        assert(s.credentials_of(u)[j] == c2);
    }
}

/// No credential exists for a user that the store has never seen.
pub proof fn law_unknown_user_has_no_credential(s: StoreModel, u: Seq<char>, c: CredentialModel)
    requires
        !s.knows_user(u),
    ensures
        !s.has_credential(u, c),
{
}

/// Updating the counter of a credential that was just persisted leaves a copy
/// with the new counter, and not the credential as it was, where the user did
/// not hold it before and the counter does change.
pub proof fn law_updated_counter_replaces_credential(
    s: StoreModel,
    u: Seq<char>,
    c: CredentialModel,
    n: u32,
)
    requires
        !s.has_credential(u, c),
        c.counter != n,
    ensures
        s.with_credential(u, c).with_counter(u, c, n).credentials_of(u).contains(
            c.with_counter(n),
        ),
        !s.with_credential(u, c).with_counter(u, c, n).has_credential(u, c),
{
    let s0 = s.credentials_of(u);
    lemma_without_appended(s0, c);
    let t = s0.push(c.with_counter(n));
    assert(t[t.len() - 1] == c.with_counter(n));
    if t.contains(c) {
        let j = choose|j: int| 0 <= j < t.len() && t[j] == c;
        assert(s0[j] == c);
    }
}

/// A credential that was just persisted, then reported for a bad counter, no
/// longer exists, where the user did not hold it before.
pub proof fn law_reported_credential_is_gone(s: StoreModel, u: Seq<char>, c: CredentialModel)
    requires
        !s.has_credential(u, c),
    ensures
        !s.with_credential(u, c).without_credential(u, c).has_credential(u, c),
{
    lemma_without_appended(s.credentials_of(u), c);
}

/// Updating a counter or reporting one fails for a user with no credential
/// set, and changes nothing.
pub proof fn law_unknown_user_changes_nothing(
    s: StoreModel,
    u: Seq<char>,
    c: CredentialModel,
    n: u32,
)
    requires
        !s.knows_user(u),
    ensures
        s.with_counter(u, c, n) == s,
        s.without_credential(u, c) == s,
{
}

/// Persisting a credential for one user leaves the credentials of every other
/// user as they were.
pub proof fn law_users_kept_apart(s: StoreModel, u: Seq<char>, other: Seq<char>, c: CredentialModel)
    requires
        u != other,
    ensures
        s.with_credential(u, c).credentials_of(other) == s.credentials_of(other),
{
}

} // verus!
