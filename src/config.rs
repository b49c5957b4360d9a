//! The operations that a store of challenges and credentials offers to the
//! protocol engine, whatever keeps the data: memory, a database.
use vstd::prelude::*;
use crate::model::StoreModel;
use crate::proto::{Challenge, Credential, UserId};
use crate::credential_set::models;

verus! {

/// A store of the pending challenge of each user and of the credentials
/// enrolled for each user, with the relying party's name, id and origin.
///
/// A store may fail where it cannot reach its data; a failed operation
/// changes nothing. Absence is never a failure: no pending challenge, or no
/// credentials for a user, is an empty answer.
pub trait WebauthnConfig: Sized {
    /// What the store holds.
    spec fn model(&self) -> StoreModel;

    /// The store's own consistency, kept by every operation.
    spec fn inv(&self) -> bool;

    /// The relying party's display name.
    fn get_relying_party_name(&self) -> (r: String)
        requires
            self.inv(),
        ensures
            r@ == self.model().rp_name,
    ;

    /// The relying party's id, most often a domain.
    fn get_relying_party_id(&self) -> (r: String)
        requires
            self.inv(),
        ensures
            r@ == self.model().rp_id,
    ;

    /// Makes `challenge` the one challenge pending for `userid`; one pending
    /// before is dropped.
    fn persist_challenge(&mut self, userid: UserId, challenge: Challenge) -> (r: Result<(), ()>)
        requires
            old(self).inv(),
        ensures
            final(self).inv(),
            r is Ok ==> final(self).model() == old(self).model().with_challenge(
                userid@,
                challenge@,
            ),
            r is Err ==> final(self).model() == old(self).model(),
    ;

    /// Takes out and returns the challenge pending for `userid`, if any: a
    /// challenge is handed out once.
    fn retrieve_challenge(&mut self, userid: &UserId) -> (r: Option<Challenge>)
        requires
            old(self).inv(),
        ensures
            final(self).inv(),
            match r {
                Some(c) => old(self).model().pending_challenge(userid@) == Some(c@),
                None => old(self).model().pending_challenge(userid@) is None,
            },
            final(self).model() == old(self).model().without_challenge(userid@),
    ;

    /// Whether `userid` holds a credential equal to `cred`, field by field;
    /// `false` for a user never seen.
    fn does_exist_credential(&self, userid: &UserId, cred: &Credential) -> (r: Result<bool, ()>)
        requires
            self.inv(),
        ensures
            r is Ok ==> r == Ok::<bool, ()>(self.model().has_credential(userid@, cred@)),
    ;

    /// Appends `credential` to the credentials of `userid`, whose set is
    /// made where the user is new. Equal credentials are not merged.
    fn persist_credential(&mut self, userid: UserId, credential: Credential) -> (r: Result<(), ()>)
        requires
            old(self).inv(),
        ensures
            final(self).inv(),
            r is Ok ==> final(self).model() == old(self).model().with_credential(
                userid@,
                credential@,
            ),
            r is Err ==> final(self).model() == old(self).model(),
    ;

    /// Replaces the first credential of `userid` equal to `cred` by a copy
    /// whose counter is `counter`; where no equal credential is held, the
    /// copy is added all the same. Fails where `userid` has no credential set.
    fn credential_update_counter(&mut self, userid: &UserId, cred: &Credential, counter: u32) -> (r:
        Result<(), ()>)
        requires
            old(self).inv(),
        ensures
            final(self).inv(),
            !old(self).model().knows_user(userid@) ==> r is Err,
            r is Ok ==> final(self).model() == old(self).model().with_counter(
                userid@,
                cred@,
                counter,
            ),
            r is Err ==> final(self).model() == old(self).model(),
    ;

    /// Takes out the first credential of `userid` equal to `cred`: the
    /// credential is revoked after its counter was seen to go back to
    /// `counter`. Fails where `userid` has no credential set.
    fn credential_report_invalid_counter(
        &mut self,
        userid: &UserId,
        cred: &Credential,
        counter: u32,
    ) -> (r: Result<(), ()>)
        requires
            old(self).inv(),
        ensures
            final(self).inv(),
            !old(self).model().knows_user(userid@) ==> r is Err,
            r is Ok ==> final(self).model() == old(self).model().without_credential(
                userid@,
                cred@,
            ),
            r is Err ==> final(self).model() == old(self).model(),
    ;

    /// The credentials of `userid`, or `None` for a user never seen.
    fn retrieve_credentials(&self, userid: &UserId) -> (r: Option<&Vec<Credential>>)
        requires
            self.inv(),
        ensures
            match r {
                Some(v) => self.model().knows_user(userid@) && models(v@)
                    == self.model().credentials[userid@],
                None => !self.model().knows_user(userid@),
            },
    ;

    /// The relying party's origin: scheme, host and port.
    fn get_origin(&self) -> (r: &String)
        requires
            self.inv(),
        ensures
            r@ == self.model().rp_origin,
    ;
}

} // verus!
