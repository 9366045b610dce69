//! What holds of sessions and object locators.

use crate::clock::Timestamp;
use crate::ident::Uuid;
use crate::model::RepositoryModel;
use crate::records::{LocatorModel, RepositoryError, SessionModel};
use vstd::prelude::*;

verus! {

/// A session that was opened is found until it expires, and from then on it is
/// not. No other session is touched.
pub proof fn opened_session_is_found_until_it_expires(
    repo: RepositoryModel,
    token_hash: Seq<char>,
    record: SessionModel,
    now: Timestamp,
)
    ensures
        ({
            let after = repo.create_session(token_hash, record);
            &&& after.find_session(token_hash, now) == if now.before(record.expires_at) {
                Ok(record)
            } else {
                Err::<SessionModel, RepositoryError>(RepositoryError::NotFound)
            }
            &&& forall|other: Seq<char>|
                other != token_hash ==> #[trigger] after.find_session(other, now)
                    == repo.find_session(other, now)
        }),
{
}

/// A session that was revoked is never found again, whatever the clock says.
/// No other session is touched.
pub proof fn revoked_session_is_not_found(
    repo: RepositoryModel,
    token_hash: Seq<char>,
    now: Timestamp,
)
    requires
        repo.sessions.contains_key(token_hash),
    ensures
        ({
            let after = repo.with_sessions(
                crate::sessions::with_revoked(repo.sessions, token_hash),
            );
            &&& after.find_session(token_hash, now) == Err::<SessionModel, RepositoryError>(
                RepositoryError::NotFound,
            )
            &&& forall|id: Uuid| !#[trigger]
                crate::sessions::active(after.sessions, token_hash, id)
            &&& forall|other: Seq<char>|
                other != token_hash ==> #[trigger] after.find_session(other, now)
                    == repo.find_session(other, now)
        }),
{
}

/// Dropping the sessions that expired before a time not after now loses no
/// session that is still found.
pub proof fn purge_loses_no_usable_session(
    repo: RepositoryModel,
    older_than: Timestamp,
    token_hash: Seq<char>,
    now: Timestamp,
)
    requires
        !now.before(older_than),
    ensures
        repo.with_sessions(
            crate::sessions::unexpired(repo.sessions, older_than),
        ).find_session(token_hash, now) == repo.find_session(token_hash, now),
{
}

/// A locator that was noted is found, with the address that was noted last.
pub proof fn noted_locator_is_found(repo: RepositoryModel, locator: LocatorModel, url: Seq<char>)
    ensures
        ({
            let after = repo.put_object_locator(locator);
            &&& crate::model::lookup(after.locators, locator.object_id) == Ok::<
                LocatorModel,
                RepositoryError,
            >(locator)
            &&& crate::model::lookup(
                after.touch_object_url(locator.object_id, url).locators,
                locator.object_id,
            ) == Ok::<LocatorModel, RepositoryError>(
                LocatorModel { object_id: locator.object_id, url },
            )
        }),
{
}

/// A new address of an object that is not known is not kept.
pub proof fn unknown_objects_stay_unknown(repo: RepositoryModel, object_id: Uuid, url: Seq<char>)
    requires
        !repo.locators.contains_key(object_id),
    ensures
        repo.touch_object_url(object_id, url) == repo,
{
}

/// A locator that was deleted is not found, and deleting it again changes
/// nothing.
pub proof fn deleted_locator_is_gone(repo: RepositoryModel, object_id: Uuid)
    ensures
        ({
            let after = repo.delete_object_locator(object_id);
            &&& crate::model::lookup(after.locators, object_id) == Err::<
                LocatorModel,
                RepositoryError,
            >(RepositoryError::NotFound)
            &&& after.delete_object_locator(object_id) == after
        }),
{
    let after = repo.delete_object_locator(object_id);
    assert(after.delete_object_locator(object_id).locators =~= after.locators);
}

} // verus!
