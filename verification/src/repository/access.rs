//! Login sessions, and where stored objects are.

use super::MemoryMetadataRepository;
use crate::clock::{utc_now, Timestamp};
use crate::ident::Uuid;
use crate::records::{ObjectLocatorRecord, RepositoryError, SessionModel, SessionRecord};
use vstd::prelude::*;

verus! {

impl MemoryMetadataRepository {
    /// Notes where an object is, in place of what was known of it.
    pub fn put_object_locator(&mut self, locator: &ObjectLocatorRecord) -> (r: Result<
        (),
        RepositoryError,
    >)
        requires
            old(self)@.wf(),
        ensures
            final(self)@.wf(),
            final(self)@ == old(self)@.put_object_locator(locator@),
            r is Ok,
    {
        self.locators.insert(locator.object_id, locator.clone());
        Ok(())
    }

    /// Where an object is.
    pub fn get_object_locator(&self, object_id: Uuid) -> (r: Result<
        ObjectLocatorRecord,
        RepositoryError,
    >)
        ensures
            crate::model::answer(r) == crate::model::lookup(self@.locators, object_id),
    {
        match self.locators.get(object_id) {
            Some(locator) => Ok(locator.clone()),
            None => Err(RepositoryError::NotFound),
        }
    }

    /// Notes another address of an object. One that is not known stays
    /// unknown.
    pub fn touch_object_url(&mut self, object_id: Uuid, url: &str) -> (r: Result<
        (),
        RepositoryError,
    >)
        requires
            old(self)@.wf(),
        ensures
            final(self)@.wf(),
            final(self)@ == old(self)@.touch_object_url(object_id, url@),
            r is Ok,
    {
        match self.locators.remove(object_id) {
            Some(l) => {
                let mut locator = l;
                locator.url = url.to_owned();
                self.locators.insert(object_id, locator);
                assert(self@.locators =~= old(self)@.locators.insert(object_id, locator@));
            },
            None => {
                assert(self@.locators =~= old(self)@.locators);
            },
        }
        Ok(())
    }

    /// Forgets where an object is.
    pub fn delete_object_locator(&mut self, object_id: Uuid) -> (r: Result<(), RepositoryError>)
        requires
            old(self)@.wf(),
        ensures
            final(self)@.wf(),
            final(self)@ == old(self)@.delete_object_locator(object_id),
            r is Ok,
    {
        let forgotten = self.locators.remove(object_id);
        Ok(())
    }

    /// Opens a session at the time `now`.
    pub fn create_session_at(
        &mut self,
        id: Uuid,
        token_hash: &str,
        label: &str,
        expires_at: Timestamp,
        now: Timestamp,
    ) -> (r: Result<SessionRecord, RepositoryError>)
        requires
            old(self)@.wf(),
        ensures
            final(self)@.wf(),
            final(self)@ == old(self)@.create_session(
                token_hash@,
                SessionModel { id, label: label@, created_at: now, expires_at },
            ),
            r matches Ok(record) && record@ == (SessionModel {
                id,
                label: label@,
                created_at: now,
                expires_at,
            }),
    {
        let record = SessionRecord { id, label: label.to_owned(), created_at: now, expires_at };
        self.sessions.put(token_hash, record.clone());
        Ok(record)
    }

    /// Opens a session under a token hash, in place of what was there.
    pub fn create_session(
        &mut self,
        id: Uuid,
        token_hash: &str,
        label: &str,
        expires_at: Timestamp,
    ) -> (r: Result<SessionRecord, RepositoryError>)
        requires
            old(self)@.wf(),
        ensures
            final(self)@.wf(),
            r matches Ok(record) && {
                &&& crate::clock::is_reading(record.created_at)
                &&& record@ == (SessionModel {
                    id,
                    label: label@,
                    created_at: record.created_at,
                    expires_at,
                })
                &&& final(self)@ == old(self)@.create_session(token_hash@, record@)
            },
    {
        let now = utc_now();
        self.create_session_at(id, token_hash, label, expires_at, now)
    }

    /// The session of a token hash at the time `now`.
    pub fn find_session_at(&self, token_hash: &str, now: Timestamp) -> (r: Result<
        SessionRecord,
        RepositoryError,
    >)
        ensures
            crate::model::answer(r) == self@.find_session(token_hash@, now),
    {
        match self.sessions.get(token_hash) {
            Some((record, revoked)) => {
                if revoked || !now.is_before(record.expires_at) {
                    Err(RepositoryError::NotFound)
                } else {
                    Ok(record.clone())
                }
            },
            None => Err(RepositoryError::NotFound),
        }
    }

    /// The session of a token hash, if it is neither revoked nor expired.
    pub fn find_session(&self, token_hash: &str) -> (r: Result<SessionRecord, RepositoryError>)
        ensures
            exists|now: Timestamp|
                crate::clock::is_reading(now) && crate::model::answer(r)
                    == #[trigger] self@.find_session(token_hash@, now),
    {
        let now = utc_now();
        self.find_session_at(token_hash, now)
    }

    /// Revokes a session, and says whether there was one to revoke. Where
    /// several sessions share `id`, one of them is revoked.
    pub fn revoke_session(&mut self, id: Uuid) -> (r: Result<bool, RepositoryError>)
        requires
            old(self)@.wf(),
        ensures
            final(self)@.wf(),
            match r {
                Ok(true) => exists|t: Seq<char>| #[trigger]
                    crate::sessions::active(old(self)@.sessions, t, id) && final(self)@
                        == old(self)@.with_sessions(
                        crate::sessions::with_revoked(old(self)@.sessions, t),
                    ),
                Ok(false) => {
                    &&& final(self)@ == old(self)@
                    &&& forall|t: Seq<char>|
                        !#[trigger] crate::sessions::active(old(self)@.sessions, t, id)
                },
                Err(e) => false,
            },
    {
        let revoked: bool = self.sessions.revoke(id);
        proof {
            let before = old(self)@.sessions;
            if revoked {
                let t = choose|t: Seq<char>| #[trigger]
                    crate::sessions::active(before, t, id) && self@.sessions
                        == crate::sessions::with_revoked(before, t);
                assert(crate::sessions::active(old(self)@.sessions, t, id));
                assert(self@ == old(self)@.with_sessions(
                    crate::sessions::with_revoked(before, t),
                ));
            }
        }
        Ok(revoked)
    }

    /// Drops the sessions that expired before `older_than`, and says how many
    /// there were.
    pub fn purge_expired_sessions(&mut self, older_than: Timestamp) -> (r: Result<
        u64,
        RepositoryError,
    >)
        requires
            old(self)@.wf(),
        ensures
            final(self)@.wf(),
            final(self)@ == old(self)@.with_sessions(
                crate::sessions::unexpired(old(self)@.sessions, older_than),
            ),
            old(self)@.sessions.dom().finite(),
            r matches Ok(purged) && purged == old(self)@.sessions.dom().len()
                - final(self)@.sessions.dom().len(),
    {
        let purged: usize = self.sessions.drop_expired(older_than);
        Ok(purged as u64)
    }
}

} // verus!
