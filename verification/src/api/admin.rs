use vstd::prelude::*;

use crate::api::response::response_access_denied;
use crate::api::response::Response;
use crate::database::person::{Person, PersonRole};

verus! {

/// Whether a rejection is the access-denied answer.
pub open spec fn is_access_denied(e: Response<()>) -> bool {
    &&& e.ok == false
    &&& e.code == 403
    &&& e.data is None
    &&& e.error matches Some(m) && m@ == "Access denied"@
}

/// Admits the caller only when the looked-up account exists and holds the
/// administrator role; anyone else is answered with the access-denied
/// rejection.
pub fn require_administrator_role(person: Option<Person>) -> (r: Result<Person, Response<()>>)
    ensures
        person matches Some(p) ==> ((p@.role is Administrator ==> (r matches Ok(q) && q@ == p@)) && (
        !(p@.role is Administrator) ==> (r matches Err(e) && is_access_denied(e)))),
        person is None ==> (r matches Err(e) && is_access_denied(e)),
{
    match person {
        Some(person) => {
            if matches!(person.role, PersonRole::Administrator) {
                Ok(person)
            } else {
                Err(response_access_denied())
            }
        },
        None => Err(response_access_denied()),
    }
}

} // verus!
