//! An ephemeral (in-memory) store of challenges and credentials.
//!
//! All that it holds is lost when the process ends. It serves demo sites and
//! tests, and is the reference that a durable store of the same operations can
//! be compared with.
use vstd::prelude::*;
use crate::config::WebauthnConfig;
use crate::credential_set::{
    contains_credential, models, remove_first_credential, without_first,
};
use crate::model::StoreModel;
use crate::proto::{Challenge, Credential, UserId};
use crate::table::Table;

verus! {

/// An in-memory store of the pending challenge of each user and of the
/// credentials enrolled for each user, with the relying party's name, id and
/// origin.
#[derive(Debug)]
pub struct WebauthnEphemeralConfig {
    chals: Table<Challenge>,
    creds: Table<Vec<Credential>>,
    rp_name: String,
    rp_id: String,
    rp_origin: String,
}

impl View for WebauthnEphemeralConfig {
    type V = StoreModel;

    closed spec fn view(&self) -> StoreModel {
        StoreModel {
            challenges: self.chals.view().map_values(|c: Challenge| c@),
            credentials: self.creds.view().map_values(|v: Vec<Credential>| models(v@)),
            rp_name: self.rp_name@,
            rp_id: self.rp_id@,
            rp_origin: self.rp_origin@,
        }
    }
}

impl WebauthnEphemeralConfig {
    /// The store's internal tables are consistent.
    pub closed spec fn wf(&self) -> bool {
        self.chals.wf() && self.creds.wf()
    }

    /// A store for the relying party named `rp_name`, with id `rp_id` and
    /// origin `rp_origin`, holding no challenge and no credential.
    pub fn new(rp_name: &str, rp_id: &str, rp_origin: &str) -> (r: Self)
        ensures
            r.wf(),
            r@ == StoreModel::fresh(rp_name@, rp_id@, rp_origin@),
    {
        let r = WebauthnEphemeralConfig {
            chals: Table::new(),
            creds: Table::new(),
            rp_name: rp_name.to_string(),
            rp_id: rp_id.to_string(),
            rp_origin: rp_origin.to_string(),
        };
        assert(r@.challenges =~= Map::empty());
        assert(r@.credentials =~= Map::empty());
        r
    }
}

/// Every operation succeeds but the two that name a user with no credential
/// set. Where no credential equal to the one named is held, a counter update
/// adds the copy with the new counter, and a report changes nothing.
impl WebauthnConfig for WebauthnEphemeralConfig {
    open spec fn model(&self) -> StoreModel {
        self@
    }

    open spec fn inv(&self) -> bool {
        self.wf()
    }

    fn get_relying_party_name(&self) -> (r: String) {
        self.rp_name.clone()
    }

    fn get_relying_party_id(&self) -> (r: String) {
        self.rp_id.clone()
    }

    fn persist_challenge(&mut self, userid: UserId, challenge: Challenge) -> (r: Result<(), ()>)
        ensures
            r is Ok,
    {
        let ghost u = userid@;
        let ghost c = challenge@;
        self.chals.insert(userid, challenge);
        assert(self@.challenges =~= old(self)@.challenges.insert(u, c));
        Ok(())
    }

    fn retrieve_challenge(&mut self, userid: &UserId) -> (r: Option<Challenge>) {
        let r = self.chals.remove(userid);
        assert(self@.challenges =~= old(self)@.challenges.remove(userid@));
        r
    }

    fn does_exist_credential(&self, userid: &UserId, cred: &Credential) -> (r: Result<bool, ()>)
        ensures
            r is Ok,
    {
        match self.creds.get(userid) {
            Some(v) => Ok(contains_credential(v, cred)),
            None => Ok(false),
        }
    }

    fn persist_credential(&mut self, userid: UserId, credential: Credential) -> (r: Result<(), ()>)
        ensures
            r is Ok,
    {
        let ghost u = userid@;
        let ghost c = credential@;
        let mut v = match self.creds.remove(&userid) {
            Some(v) => v,
            None => Vec::new(),
        };
        v.push(credential);
        assert(models(v@) =~= old(self)@.credentials_of(u).push(c));
        self.creds.insert(userid, v);
        assert(self@.credentials =~= old(self)@.credentials.insert(
            u,
            old(self)@.credentials_of(u).push(c),
        ));
        Ok(())
    }

    fn credential_update_counter(&mut self, userid: &UserId, cred: &Credential, counter: u32) -> (r:
        Result<(), ()>)
        ensures
            r is Ok <==> old(self)@.knows_user(userid@),
    {
        match self.creds.remove(userid) {
            Some(v) => {
                let mut v = v;
                let ghost before = models(v@);
                remove_first_credential(&mut v, cred);
                let c = cred.with_counter(counter);
                v.push(c);
                assert(models(v@) =~= without_first(before, cred@).push(
                    cred@.with_counter(counter),
                ));
                self.creds.insert(userid.clone(), v);
                assert(self@.credentials =~= old(self)@.with_counter(
                    userid@,
                    cred@,
                    counter,
                ).credentials);
                Ok(())
            },
            None => {
                assert(self@.credentials =~= old(self)@.credentials);
                Err(())
            },
        }
    }

    fn credential_report_invalid_counter(
        &mut self,
        userid: &UserId,
        cred: &Credential,
        _counter: u32,
    ) -> (r: Result<(), ()>)
        ensures
            r is Ok <==> old(self)@.knows_user(userid@),
    {
        match self.creds.remove(userid) {
            Some(v) => {
                let mut v = v;
                remove_first_credential(&mut v, cred);
                self.creds.insert(userid.clone(), v);
                assert(self@.credentials =~= old(self)@.without_credential(
                    userid@,
                    cred@,
                ).credentials);
                Ok(())
            },
            None => {
                assert(self@.credentials =~= old(self)@.credentials);
                Err(())
            },
        }
    }

    fn retrieve_credentials(&self, userid: &UserId) -> (r: Option<&Vec<Credential>>) {
        self.creds.get(userid)
    }

    fn get_origin(&self) -> (r: &String) {
        &self.rp_origin
    }
}

} // verus!
